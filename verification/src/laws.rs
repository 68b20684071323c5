use vstd::prelude::*;

use crate::dispatch::{roster_deliveries, roster_message};
use crate::registry::{
    contains_id, count_id, except_deliveries, register_reg, remove_reg, wf_reg, DeliveryView,
    EntryView, MAX_PLAYERS,
};

verus! {

/// `contains_id` splits over dropping the final entry.
proof fn lemma_contains_drop_last(r: Seq<EntryView>, id: Seq<char>)
    requires
        r.len() > 0,
    ensures
        contains_id(r, id) <==> (contains_id(r.drop_last(), id) || r.last().player.id == id),
{
    let s = r.drop_last();
    if contains_id(r, id) {
        let i = choose|i: int| 0 <= i < r.len() && r[i].player.id == id;
        if i < r.len() - 1 {
            assert(s[i].player.id == id);
        }
    }
    if contains_id(s, id) {
        let i = choose|i: int| 0 <= i < s.len() && s[i].player.id == id;
        assert(r[i].player.id == id);
    }
    if r.last().player.id == id {
        assert(r[r.len() - 1].player.id == id);
    }
}

/// `contains_id` splits over appending one entry.
proof fn lemma_contains_push(r: Seq<EntryView>, e: EntryView, id: Seq<char>)
    ensures
        contains_id(r.push(e), id) <==> (contains_id(r, id) || e.player.id == id),
{
    assert(r.push(e).drop_last() =~= r);
    assert(r.push(e).last() == e);
    lemma_contains_drop_last(r.push(e), id);
}

/// An id is absent exactly when its entry count is zero.
pub proof fn lemma_count_zero_iff_absent(r: Seq<EntryView>, id: Seq<char>)
    ensures
        (count_id(r, id) == 0) <==> !contains_id(r, id),
    decreases r.len(),
{
    if r.len() == 0 {
        assert(!contains_id(r, id));
    } else {
        lemma_count_zero_iff_absent(r.drop_last(), id);
        lemma_contains_drop_last(r, id);
    }
}

/// Appending one entry raises the count of its own id by one and leaves
/// every other id's count alone.
pub proof fn lemma_count_push(r: Seq<EntryView>, e: EntryView, id: Seq<char>)
    ensures
        count_id(r.push(e), id) == count_id(r, id) + (if e.player.id == id {
            1nat
        } else {
            0nat
        }),
{
    assert(r.push(e).drop_last() =~= r);
    assert(r.push(e).last() == e);
}

/// In a well-formed registry no id is carried twice.
proof fn lemma_wf_count_at_most_one(r: Seq<EntryView>, id: Seq<char>)
    requires
        wf_reg(r),
    ensures
        count_id(r, id) <= 1,
    decreases r.len(),
{
    if r.len() > 0 {
        let s = r.drop_last();
        assert(wf_reg(s)) by {
            assert(forall|i: int| 0 <= i < s.len() ==> s[i] == r[i]);
        }
        lemma_wf_count_at_most_one(s, id);
        if r.last().player.id == id {
            assert(!contains_id(s, id)) by {
                if contains_id(s, id) {
                    let i = choose|i: int| 0 <= i < s.len() && s[i].player.id == id;
                    assert(r[i].player.id == r[r.len() - 1].player.id);
                }
            }
            lemma_count_zero_iff_absent(s, id);
        }
    }
}

/// Deregistration drops exactly as many entries as carry the id.
pub proof fn lemma_remove_len(r: Seq<EntryView>, id: Seq<char>)
    ensures
        remove_reg(r, id).len() + count_id(r, id) == r.len(),
    decreases r.len(),
{
    if r.len() > 0 {
        lemma_remove_len(r.drop_last(), id);
    }
}

/// No surviving entry carries the removed id.
pub proof fn lemma_remove_ids(r: Seq<EntryView>, id: Seq<char>)
    ensures
        forall|k: int|
            0 <= k < remove_reg(r, id).len() ==> (#[trigger] remove_reg(r, id)[k]).player.id != id,
    decreases r.len(),
{
    if r.len() > 0 {
        let s = r.drop_last();
        lemma_remove_ids(s, id);
        let rest = remove_reg(s, id);
        if r.last().player.id != id {
            assert forall|k: int| 0 <= k < remove_reg(r, id).len() implies (#[trigger] remove_reg(
                r,
                id,
            )[k]).player.id != id by {
                if k < rest.len() {
                    assert(remove_reg(r, id)[k] == rest[k]);
                } else {
                    assert(remove_reg(r, id)[k] == r.last());
                }
            }
        }
    }
}

/// Every surviving entry stood in the registry before the removal.
pub proof fn lemma_remove_from(r: Seq<EntryView>, id: Seq<char>)
    ensures
        forall|k: int|
            0 <= k < remove_reg(r, id).len() ==> r.contains(#[trigger] remove_reg(r, id)[k]),
    decreases r.len(),
{
    if r.len() > 0 {
        let s = r.drop_last();
        lemma_remove_from(s, id);
        let rest = remove_reg(s, id);
        assert forall|k: int| 0 <= k < remove_reg(r, id).len() implies r.contains(
            #[trigger] remove_reg(r, id)[k],
        ) by {
            if k < rest.len() {
                assert(remove_reg(r, id)[k] == rest[k]);
                assert(s.contains(rest[k]));
                let i = choose|i: int| 0 <= i < s.len() && s[i] == rest[k];
                assert(r[i] == rest[k]);
            } else {
                assert(remove_reg(r, id)[k] == r.last());
                assert(r[r.len() - 1] == r.last());
            }
        }
    }
}

/// Every entry that does not carry the removed id survives the removal.
pub proof fn lemma_remove_keeps(r: Seq<EntryView>, id: Seq<char>)
    ensures
        forall|i: int|
            0 <= i < r.len() && (#[trigger] r[i]).player.id != id ==> remove_reg(r, id).contains(
                r[i],
            ),
    decreases r.len(),
{
    if r.len() > 0 {
        let s = r.drop_last();
        lemma_remove_keeps(s, id);
        let rest = remove_reg(s, id);
        assert forall|i: int| 0 <= i < r.len() && (#[trigger] r[i]).player.id != id implies
            remove_reg(r, id).contains(r[i]) by {
            if i < r.len() - 1 {
                assert(s[i] == r[i]);
                assert(rest.contains(r[i]));
                let k = choose|k: int| 0 <= k < rest.len() && rest[k] == r[i];
                if r.last().player.id == id {
                    assert(remove_reg(r, id)[k] == r[i]);
                } else {
                    assert(remove_reg(r, id)[k] == r[i]);
                }
            } else {
                assert(remove_reg(r, id)[rest.len() as int] == r.last());
            }
        }
    }
}

/// A deregistration preserves well-formedness.
pub proof fn lemma_remove_wf(r: Seq<EntryView>, id: Seq<char>)
    requires
        wf_reg(r),
    ensures
        wf_reg(remove_reg(r, id)),
    decreases r.len(),
{
    if r.len() > 0 {
        let s = r.drop_last();
        assert(wf_reg(s)) by {
            assert(forall|i: int| 0 <= i < s.len() ==> s[i] == r[i]);
        }
        lemma_remove_wf(s, id);
        lemma_remove_from(s, id);
        let rest = remove_reg(s, id);
        if r.last().player.id != id {
            assert forall|x: int, y: int|
                0 <= x < remove_reg(r, id).len() && 0 <= y < remove_reg(r, id).len() && x
                    != y implies remove_reg(r, id)[x].player.id != remove_reg(
                r,
                id,
            )[y].player.id by {
                if x < rest.len() && y < rest.len() {
                    assert(remove_reg(r, id)[x] == rest[x]);
                    assert(remove_reg(r, id)[y] == rest[y]);
                } else if x < rest.len() {
                    assert(remove_reg(r, id)[x] == rest[x]);
                    assert(remove_reg(r, id)[y] == r.last());
                    assert(s.contains(rest[x]));
                    let i = choose|i: int| 0 <= i < s.len() && s[i] == rest[x];
                    assert(r[i] == rest[x]);
                    assert(r[i].player.id != r[r.len() - 1].player.id);
                } else {
                    assert(remove_reg(r, id)[y] == rest[y]);
                    assert(remove_reg(r, id)[x] == r.last());
                    assert(s.contains(rest[y]));
                    let i = choose|i: int| 0 <= i < s.len() && s[i] == rest[y];
                    assert(r[i] == rest[y]);
                    assert(r[i].player.id != r[r.len() - 1].player.id);
                }
            }
        }
    }
}

/// Admitting a freshly identified session puts exactly one entry with
/// the new id into the roster, grows the roster by one, and owes one
/// roster frame — showing the new roster — to every registered sink,
/// the newcomer's included.
pub proof fn lemma_admission_roster(reg: Seq<EntryView>, e: EntryView)
    requires
        wf_reg(reg),
        !contains_id(reg, e.player.id),
    ensures
        ({
            let reg2 = register_reg(reg, e);
            &&& reg2.len() == reg.len() + 1
            &&& count_id(reg2, e.player.id) == 1
            &&& wf_reg(reg2)
            &&& roster_deliveries(reg2).len() == reg2.len()
            &&& forall|k: int|
                0 <= k < reg2.len() ==> roster_deliveries(reg2)[k] == (DeliveryView {
                    sink: reg2[k].sink,
                    message: roster_message(reg2),
                })
        }),
{
    let reg2 = register_reg(reg, e);
    assert(reg2 == reg.push(e));
    lemma_count_zero_iff_absent(reg, e.player.id);
    lemma_count_push(reg, e, e.player.id);
    assert forall|i: int, j: int|
        0 <= i < reg2.len() && 0 <= j < reg2.len() && i != j implies reg2[i].player.id
        != reg2[j].player.id by {
        if i < reg.len() && j < reg.len() {
            assert(reg2[i] == reg[i]);
            assert(reg2[j] == reg[j]);
        } else if i < reg.len() {
            assert(reg2[i] == reg[i]);
            assert(reg2[j] == e);
        } else {
            assert(reg2[j] == reg[j]);
            assert(reg2[i] == e);
        }
    }
}

/// Registering a batch of entries, one after the other.
pub open spec fn register_all(r: Seq<EntryView>, es: Seq<EntryView>) -> Seq<EntryView>
    decreases es.len(),
{
    if es.len() == 0 {
        r
    } else {
        register_reg(register_all(r, es.drop_last()), es.last())
    }
}

/// Registering entries with pairwise fresh ids grows the registry by
/// one entry each, keeps it well formed, and registers exactly the old
/// ids and the new ones.
proof fn lemma_register_all_fresh(r: Seq<EntryView>, es: Seq<EntryView>)
    requires
        wf_reg(r),
        forall|i: int, j: int|
            0 <= i < es.len() && 0 <= j < es.len() && i != j ==> es[i].player.id
                != es[j].player.id,
        forall|i: int| 0 <= i < es.len() ==> !contains_id(r, (#[trigger] es[i]).player.id),
    ensures
        register_all(r, es).len() == r.len() + es.len(),
        wf_reg(register_all(r, es)),
        forall|id: Seq<char>|
            #[trigger] contains_id(register_all(r, es), id) <==> (contains_id(r, id) || exists|
                i: int,
            |
                0 <= i < es.len() && es[i].player.id == id),
    decreases es.len(),
{
    if es.len() == 0 {
        assert forall|id: Seq<char>| #[trigger]
            contains_id(register_all(r, es), id) <==> (contains_id(r, id) || exists|i: int|
                0 <= i < es.len() && es[i].player.id == id) by {
            if exists|i: int| 0 <= i < es.len() && es[i].player.id == id {
                let i = choose|i: int| 0 <= i < es.len() && es[i].player.id == id;
                assert(false);
            }
        }
    } else {
        let es0 = es.drop_last();
        let e = es.last();
        assert(forall|i: int| 0 <= i < es0.len() ==> es0[i] == es[i]);
        assert(e == es[es.len() - 1]);
        lemma_register_all_fresh(r, es0);
        let r0 = register_all(r, es0);
        assert(!contains_id(r0, e.player.id)) by {
            if exists|i: int| 0 <= i < es0.len() && es0[i].player.id == e.player.id {
                let i = choose|i: int| 0 <= i < es0.len() && es0[i].player.id == e.player.id;
                assert(es[i].player.id == es[es.len() - 1].player.id);
            }
        }
        lemma_admission_roster(r0, e);
        let r1 = register_reg(r0, e);
        assert(register_all(r, es) == r1);
        assert forall|id: Seq<char>| #[trigger]
            contains_id(r1, id) <==> (contains_id(r, id) || exists|i: int|
                0 <= i < es.len() && es[i].player.id == id) by {
            lemma_contains_push(r0, e, id);
            if contains_id(r1, id) {
                if contains_id(r0, id) {
                    if !contains_id(r, id) {
                        let i = choose|i: int| 0 <= i < es0.len() && es0[i].player.id == id;
                        assert(es[i].player.id == id);
                    }
                } else {
                    assert(es[es.len() - 1].player.id == id);
                }
            }
            if exists|i: int| 0 <= i < es.len() && es[i].player.id == id {
                let i = choose|i: int| 0 <= i < es.len() && es[i].player.id == id;
                if i < es.len() - 1 {
                    assert(es0[i].player.id == id);
                    assert(contains_id(r0, id));
                } else {
                    assert(e.player.id == id);
                }
            }
        }
    }
}

/// Admitting up to [`MAX_PLAYERS`] sessions with pairwise distinct ids
/// into an empty registry registers all of them: the registry's size is
/// the number of admissions, and the roster rebroadcast after the last
/// one carries one frame per admitted session, each listing all of
/// them.
pub proof fn lemma_concurrent_admissions(es: Seq<EntryView>)
    requires
        forall|i: int, j: int|
            0 <= i < es.len() && 0 <= j < es.len() && i != j ==> es[i].player.id
                != es[j].player.id,
        es.len() <= MAX_PLAYERS,
    ensures
        ({
            let reg = register_all(Seq::empty(), es);
            &&& reg.len() == es.len()
            &&& wf_reg(reg)
            &&& roster_deliveries(reg).len() == es.len()
            &&& forall|k: int|
                0 <= k < es.len() ==> roster_deliveries(reg)[k] == (DeliveryView {
                    sink: reg[k].sink,
                    message: roster_message(reg),
                })
        }),
{
    assert(wf_reg(Seq::<EntryView>::empty()));
    assert forall|i: int| 0 <= i < es.len() implies !contains_id(
        Seq::<EntryView>::empty(),
        (#[trigger] es[i]).player.id,
    ) by {}
    lemma_register_all_fresh(Seq::empty(), es);
}

/// The teardown after `QUIT`, `2001` or an end of stream deregisters
/// exactly one entry — the departing session's — leaves every other
/// session in place, and owes exactly one roster rebroadcast: one frame
/// per remaining entry, each showing the shrunken roster.
pub proof fn lemma_teardown_exactly_once(reg: Seq<EntryView>, id: Seq<char>)
    requires
        wf_reg(reg),
        contains_id(reg, id),
    ensures
        ({
            let reg2 = remove_reg(reg, id);
            &&& reg2.len() == reg.len() - 1
            &&& !contains_id(reg2, id)
            &&& wf_reg(reg2)
            &&& forall|i: int|
                0 <= i < reg.len() && (#[trigger] reg[i]).player.id != id ==> reg2.contains(reg[i])
            &&& roster_deliveries(reg2).len() == reg2.len()
            &&& forall|k: int|
                0 <= k < reg2.len() ==> roster_deliveries(reg2)[k] == (DeliveryView {
                    sink: reg2[k].sink,
                    message: roster_message(reg2),
                })
        }),
{
    let reg2 = remove_reg(reg, id);
    lemma_wf_count_at_most_one(reg, id);
    lemma_count_zero_iff_absent(reg, id);
    lemma_remove_len(reg, id);
    lemma_remove_ids(reg, id);
    assert(!contains_id(reg2, id)) by {
        if contains_id(reg2, id) {
            let k = choose|k: int| 0 <= k < reg2.len() && reg2[k].player.id == id;
            assert(reg2[k].player.id != id);
        }
    }
    lemma_remove_wf(reg, id);
    lemma_remove_keeps(reg, id);
}

/// A broadcast that excludes a sender plans no write for the entry
/// whose id is the excluded one, and plans exactly one write, carrying
/// the payload, for each entry present at call time with another id, in
/// registry order.
pub proof fn lemma_broadcast_except(reg: Seq<EntryView>, except: Seq<char>, m: Seq<char>)
    ensures
        ({
            let ds = except_deliveries(reg, except, m);
            let kept = remove_reg(reg, except);
            &&& ds.len() == kept.len()
            &&& forall|k: int|
                0 <= k < ds.len() ==> (#[trigger] kept[k]).player.id != except && ds[k]
                    == (DeliveryView { sink: kept[k].sink, message: m })
            &&& forall|i: int|
                0 <= i < reg.len() && (#[trigger] reg[i]).player.id != except ==> kept.contains(
                    reg[i],
                )
        }),
{
    lemma_remove_ids(reg, except);
    lemma_remove_keeps(reg, except);
}

} // verus!
