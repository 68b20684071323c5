use vstd::prelude::*;

use crate::player::{Player, PlayerView};

verus! {

/// The soft capacity of the server: admission control refuses a new
/// connection once this many sessions are registered.
pub const MAX_PLAYERS: usize = 8;

/// Mathematical image of one registry entry.
#[verifier::ext_equal]
pub ghost struct EntryView {
    pub player: PlayerView,
    pub sink: u64,
}

struct Entry {
    player: Player,
    sink: u64,
}

impl View for Entry {
    type V = EntryView;

    closed spec fn view(&self) -> EntryView {
        EntryView { player: self.player@, sink: self.sink }
    }
}

/// Mathematical image of one planned write: `message` is to be written
/// to the outbound sink that the handle `sink` stands for.
#[verifier::ext_equal]
pub ghost struct DeliveryView {
    pub sink: u64,
    pub message: Seq<char>,
}

/// One planned write.  The registry itself performs no I/O: every relay
/// operation returns the writes it calls for, and the embedding program
/// executes them against the real sinks.  A failed write is the
/// recipient's own problem (logged and skipped there); it never removes
/// the failing entry from the registry.
#[derive(Debug)]
pub struct Delivery {
    pub sink: u64,
    pub message: String,
}

impl View for Delivery {
    type V = DeliveryView;

    open spec fn view(&self) -> DeliveryView {
        DeliveryView { sink: self.sink, message: self.message@ }
    }
}

/// The image of a vector of planned writes.
pub open spec fn deliveries_view(s: Seq<Delivery>) -> Seq<DeliveryView> {
    s.map_values(|d: Delivery| d@)
}

/// A relay operation that could not be carried out.
#[derive(PartialEq, Eq, Structural, Clone, Copy, Debug)]
pub enum RelayError {
    /// The unicast target is not registered.
    PeerNotFound,
}

/// A registry is well formed when no two entries claim the same session
/// id: identity is the id alone.
pub open spec fn wf_reg(r: Seq<EntryView>) -> bool {
    forall|i: int, j: int|
        0 <= i < r.len() && 0 <= j < r.len() && i != j ==> r[i].player.id != r[j].player.id
}

/// Whether some entry carries the session id `id`.
pub open spec fn contains_id(r: Seq<EntryView>, id: Seq<char>) -> bool {
    exists|i: int| 0 <= i < r.len() && r[i].player.id == id
}

/// The position of the entry carrying `id`.
pub open spec fn index_of_id(r: Seq<EntryView>, id: Seq<char>) -> int {
    choose|i: int| 0 <= i < r.len() && r[i].player.id == id
}

/// The sink registered under `id`.
pub open spec fn sink_of(r: Seq<EntryView>, id: Seq<char>) -> u64 {
    r[index_of_id(r, id)].sink
}

/// How many entries carry the session id `id`.
pub open spec fn count_id(r: Seq<EntryView>, id: Seq<char>) -> nat
    decreases r.len(),
{
    if r.len() == 0 {
        0
    } else {
        count_id(r.drop_last(), id) + if r.last().player.id == id {
            1nat
        } else {
            0nat
        }
    }
}

/// Registration: the entry is appended unless its id is already taken,
/// in which case nothing changes.
pub open spec fn register_reg(r: Seq<EntryView>, e: EntryView) -> Seq<EntryView> {
    if contains_id(r, e.player.id) {
        r
    } else {
        r.push(e)
    }
}

/// Deregistration: every entry carrying `id` is dropped (at most one in
/// a well-formed registry); the rest keep their order.
pub open spec fn remove_reg(r: Seq<EntryView>, id: Seq<char>) -> Seq<EntryView>
    decreases r.len(),
{
    if r.len() == 0 {
        Seq::empty()
    } else {
        let rest = remove_reg(r.drop_last(), id);
        if r.last().player.id == id {
            rest
        } else {
            rest.push(r.last())
        }
    }
}

/// One write of `m` to every entry, in registry order.
pub open spec fn all_deliveries(r: Seq<EntryView>, m: Seq<char>) -> Seq<DeliveryView> {
    Seq::new(r.len(), |i: int| DeliveryView { sink: r[i].sink, message: m })
}

/// One write of `m` to every entry whose id is not `except`.
pub open spec fn except_deliveries(r: Seq<EntryView>, except: Seq<char>, m: Seq<char>) -> Seq<
    DeliveryView,
> {
    all_deliveries(remove_reg(r, except), m)
}

/// The session registry: the players admitted by a completed handshake,
/// each with the handle of its outbound sink.
pub struct Connections {
    entries: Vec<Entry>,
}

impl View for Connections {
    type V = Seq<EntryView>;

    closed spec fn view(&self) -> Seq<EntryView> {
        self.entries@.map_values(|e: Entry| e@)
    }
}

impl Connections {
    pub open spec fn wf(&self) -> bool {
        wf_reg(self@)
    }

    pub fn new() -> (c: Connections)
        ensures
            c@ == Seq::<EntryView>::empty(),
            c.wf(),
    {
        let c = Connections { entries: Vec::new() };
        proof {
            assert(c@ =~= Seq::<EntryView>::empty());
        }
        c
    }

    pub fn len(&self) -> (n: usize)
        ensures
            n == self@.len(),
    {
        self.entries.len()
    }

    /// Whether the entry carrying `id` exists, and where.
    fn find_id(&self, id: &str) -> (r: Option<usize>)
        ensures
            r is Some <==> contains_id(self@, id@),
            r matches Some(i) ==> 0 <= i < self@.len() && self@[i as int].player.id == id@
                && (forall|j: int| 0 <= j < i ==> self@[j].player.id != id@),
    {
        let mut i: usize = 0;
        while i < self.entries.len()
            invariant
                i <= self.entries.len(),
                self@.len() == self.entries@.len(),
                forall|j: int| 0 <= j < i ==> self@[j].player.id != id@,
            decreases self.entries.len() - i,
        {
            if crate::text::str_eq(self.entries[i].player.id.as_str(), id) {
                proof {
                    assert(self@[i as int].player.id == id@);
                }
                return Some(i);
            }
            i += 1;
        }
        None
    }

    /// Admits a player: the entry is appended unless the id is already
    /// registered, in which case the call has no effect.
    pub fn add_player(&mut self, player: Player, sink: u64)
        requires
            old(self).wf(),
        ensures
            final(self).wf(),
            final(self)@ == register_reg(old(self)@, (EntryView { player: player@, sink: sink })),
    {
        let present = self.find_id(player.id.as_str());
        if present.is_none() {
            let ghost old_view = self@;
            self.entries.push(Entry { player, sink });
            proof {
                assert(self@ =~= old_view.push(EntryView { player: player@, sink: sink }));
                assert forall|i: int, j: int|
                    0 <= i < self@.len() && 0 <= j < self@.len() && i != j implies self@[i].player.id
                    != self@[j].player.id by {
                    if i < old_view.len() && j < old_view.len() {
                        assert(old_view[i].player.id != old_view[j].player.id);
                    } else if i < old_view.len() {
                        assert(!contains_id(old_view, player@.id));
                        assert(self@[j] == EntryView { player: player@, sink: sink });
                    } else {
                        assert(!contains_id(old_view, player@.id));
                        assert(self@[i] == EntryView { player: player@, sink: sink });
                    }
                }
            }
        }
    }

    /// Drops the entry whose id matches `player`'s; a no-op when none
    /// does.  Identity is the session id alone.
    pub fn remove_player(&mut self, player: &Player)
        requires
            old(self).wf(),
        ensures
            final(self).wf(),
            final(self)@ == remove_reg(old(self)@, player@.id),
    {
        let found = self.find_id(player.id.as_str());
        match found {
            None => {
                proof {
                    lemma_remove_reg_absent(self@, player@.id);
                }
            },
            Some(i) => {
                let ghost old_view = self@;
                self.entries.remove(i);
                proof {
                    assert(self@ =~= old_view.remove(i as int));
                    let a = old_view.take(i as int);
                    let b = old_view.skip(i as int + 1);
                    assert(old_view =~= a + seq![old_view[i as int]] + b);
                    lemma_remove_reg_concat(a + seq![old_view[i as int]], b, player@.id);
                    lemma_remove_reg_concat(a, seq![old_view[i as int]], player@.id);
                    lemma_remove_reg_absent(a, player@.id);
                    assert forall|j: int| 0 <= j < b.len() implies b[j].player.id != player@.id by {
                        assert(old_view[i as int + 1 + j] == b[j]);
                    }
                    lemma_remove_reg_absent(b, player@.id);
                    reveal_with_fuel(remove_reg, 2);
                    assert(remove_reg(seq![old_view[i as int]], player@.id) =~= Seq::<
                        EntryView,
                    >::empty());
                    assert(remove_reg(old_view, player@.id) =~= a + b);
                    assert(self@ =~= a + b);
                    assert forall|x: int, y: int|
                        0 <= x < self@.len() && 0 <= y < self@.len() && x != y implies self@[x].player.id
                        != self@[y].player.id by {
                        let xo = if x < i as int {
                            x
                        } else {
                            x + 1
                        };
                        let yo = if y < i as int {
                            y
                        } else {
                            y + 1
                        };
                        assert(self@[x] == old_view[xo]);
                        assert(self@[y] == old_view[yo]);
                    }
                }
            },
        }
    }

    /// A copy of every registered player's public record, in registry
    /// order.
    pub fn get_list_of_players(&self) -> (r: Vec<Player>)
        ensures
            r@.len() == self@.len(),
            forall|i: int| 0 <= i < r@.len() ==> r@[i]@ == self@[i].player,
    {
        let mut r: Vec<Player> = Vec::new();
        let mut i: usize = 0;
        while i < self.entries.len()
            invariant
                i <= self.entries.len(),
                self@.len() == self.entries@.len(),
                r@.len() == i,
                forall|j: int| 0 <= j < i ==> r@[j]@ == self@[j].player,
            decreases self.entries.len() - i,
        {
            r.push(Player::copy(&self.entries[i].player));
            i += 1;
        }
        r
    }

    /// Plans one write of `msg` to every registered sink.
    pub fn broadcast(&self, msg: String) -> (r: Vec<Delivery>)
        ensures
            deliveries_view(r@) == all_deliveries(self@, msg@),
    {
        let mut r: Vec<Delivery> = Vec::new();
        let mut i: usize = 0;
        while i < self.entries.len()
            invariant
                i <= self.entries.len(),
                self@.len() == self.entries@.len(),
                r@.len() == i,
                forall|j: int|
                    0 <= j < i ==> r@[j]@ == (DeliveryView {
                        sink: self@[j].sink,
                        message: msg@,
                    }),
            decreases self.entries.len() - i,
        {
            r.push(Delivery { sink: self.entries[i].sink, message: msg.clone() });
            i += 1;
        }
        proof {
            assert(deliveries_view(r@) =~= all_deliveries(self@, msg@));
        }
        r
    }

    /// Plans one write of `msg` to every registered sink but the one
    /// whose session id equals `except`'s.
    pub fn broadcast_to_everyone_else(&self, msg: String, except: &Player) -> (r: Vec<Delivery>)
        ensures
            deliveries_view(r@) == except_deliveries(self@, except@.id, msg@),
    {
        let mut r: Vec<Delivery> = Vec::new();
        let mut i: usize = 0;
        while i < self.entries.len()
            invariant
                i <= self.entries.len(),
                self@.len() == self.entries@.len(),
                deliveries_view(r@) == except_deliveries(self@.take(i as int), except@.id, msg@),
            decreases self.entries.len() - i,
        {
            let ghost prefix = self@.take(i as int);
            let ghost next = self@.take(i as int + 1);
            proof {
                assert(next.drop_last() =~= prefix);
                assert(next.last() == self@[i as int]);
            }
            if !Player::eq(&self.entries[i].player, except) {
                let ghost old_deliveries = deliveries_view(r@);
                r.push(Delivery { sink: self.entries[i].sink, message: msg.clone() });
                proof {
                    assert(remove_reg(next, except@.id) =~= remove_reg(prefix, except@.id).push(
                        self@[i as int],
                    ));
                    assert(deliveries_view(r@) =~= old_deliveries.push(
                        (DeliveryView { sink: self@[i as int].sink, message: msg@ }),
                    ));
                    assert(deliveries_view(r@) =~= except_deliveries(next, except@.id, msg@));
                }
            } else {
                proof {
                    assert(remove_reg(next, except@.id) =~= remove_reg(prefix, except@.id));
                    assert(deliveries_view(r@) =~= except_deliveries(next, except@.id, msg@));
                }
            }
            i += 1;
        }
        proof {
            assert(self@.take(self@.len() as int) =~= self@);
        }
        r
    }

    /// Plans one write of `msg` to the single entry whose session id
    /// equals `to`'s; fails with [`RelayError::PeerNotFound`], and plans
    /// nothing, when no such entry is registered.  Takes the registry by
    /// shared reference: a failed unicast can mutate nothing.
    pub fn send_private(&self, msg: String, to: &Player) -> (r: Result<Delivery, RelayError>)
        requires
            self.wf(),
        ensures
            r is Ok <==> contains_id(self@, to@.id),
            r matches Ok(d) ==> d@ == (DeliveryView { sink: sink_of(self@, to@.id), message: msg@ }),
            r is Err ==> r == Result::<Delivery, RelayError>::Err(RelayError::PeerNotFound),
    {
        match self.find_id(to.id.as_str()) {
            Some(i) => {
                proof {
                    let k = index_of_id(self@, to@.id);
                    assert(self@[k].player.id == to@.id);
                    assert(k == i as int);
                }
                Ok(Delivery { sink: self.entries[i].sink, message: msg })
            },
            None => Err(RelayError::PeerNotFound),
        }
    }
}

/// Deregistering an id that no entry carries changes nothing.
pub proof fn lemma_remove_reg_absent(r: Seq<EntryView>, id: Seq<char>)
    requires
        forall|i: int| 0 <= i < r.len() ==> r[i].player.id != id,
    ensures
        remove_reg(r, id) == r,
    decreases r.len(),
{
    if r.len() > 0 {
        lemma_remove_reg_absent(r.drop_last(), id);
        assert(remove_reg(r, id) =~= r);
    } else {
        assert(remove_reg(r, id) =~= r);
    }
}

/// Deregistration distributes over concatenation.
pub proof fn lemma_remove_reg_concat(a: Seq<EntryView>, b: Seq<EntryView>, id: Seq<char>)
    ensures
        remove_reg(a + b, id) == remove_reg(a, id) + remove_reg(b, id),
    decreases b.len(),
{
    if b.len() == 0 {
        assert(a + b =~= a);
        assert(remove_reg(a, id) + remove_reg(b, id) =~= remove_reg(a, id));
    } else {
        lemma_remove_reg_concat(a, b.drop_last(), id);
        assert((a + b).drop_last() =~= a + b.drop_last());
        assert((a + b).last() == b.last());
        if b.last().player.id == id {
            assert(remove_reg(a + b, id) =~= remove_reg(a, id) + remove_reg(b, id));
        } else {
            assert(remove_reg(a, id) + remove_reg(b.drop_last(), id).push(b.last()) =~= (
            remove_reg(a, id) + remove_reg(b.drop_last(), id)).push(b.last()));
            assert(remove_reg(a + b, id) =~= remove_reg(a, id) + remove_reg(b, id));
        }
    }
}

} // verus!
