//! The material requirements planner: absorbs net demand into the spare
//! quantity of existing un-arrived shipments, then buys the residual from
//! the cheapest supplier that can still deliver in time, and links pending
//! items to the shipments that cover them.

use vstd::prelude::*;

use crate::pieces::RawMaterial;
use crate::shipments::{MaterialShipment, RawMaterialDetails, Shipment, UnderAllocatedShipment};
use crate::suppliers::Supplier;

verus! {

/// Absorption: demand drains into the spare quantity of the under-allocated
/// shipments in order, one at a time, until the demand is gone; shipments
/// that absorbed nothing are discarded. Returns the residual demand and the
/// kept shipments, each with its spare reduced and its absorbed amount
/// recorded.
pub open spec fn spec_absorb(net: int, ships: Seq<UnderAllocatedShipment>) -> (
    int,
    Seq<UnderAllocatedShipment>,
)
    decreases ships.len(),
{
    if net <= 0 || ships.len() == 0 {
        (net, Seq::<UnderAllocatedShipment>::empty())
    } else {
        let s = ships[0];
        let alloc: int = if s.extra_quantity <= net {
            s.extra_quantity as int
        } else {
            net
        };
        let tail = spec_absorb(net - alloc, ships.drop_first());
        let s2 = UnderAllocatedShipment {
            id: s.id,
            extra_quantity: (s.extra_quantity - alloc) as i64,
            added: Some(alloc as i64),
        };
        if alloc > 0 {
            (tail.0, seq![s2] + tail.1)
        } else {
            (tail.0, tail.1)
        }
    }
}

/// The total spare quantity of a list of under-allocated shipments.
pub open spec fn sum_extra(ships: Seq<UnderAllocatedShipment>) -> int
    decreases ships.len(),
{
    if ships.len() == 0 {
        0
    } else {
        ships[0].extra_quantity + sum_extra(ships.drop_first())
    }
}

/// The total absorbed amount recorded on a list of shipments.
pub open spec fn sum_added(ships: Seq<UnderAllocatedShipment>) -> int
    decreases ships.len(),
{
    if ships.len() == 0 {
        0
    } else {
        (match ships[0].added {
            Some(a) => a as int,
            None => 0,
        }) + sum_added(ships.drop_first())
    }
}

/// Absorption bookkeeping: the residual demand is the demand less the total
/// spare (floored at zero), what was absorbed accounts exactly for the
/// demand that went away, and every kept shipment records a positive
/// absorbed amount.
pub proof fn lemma_absorb_accounting(net: int, ships: Seq<UnderAllocatedShipment>)
    requires
        0 <= net,
        forall|k: int| 0 <= k < ships.len() ==> 0 <= (#[trigger] ships[k]).extra_quantity,
    ensures
        spec_absorb(net, ships).0 == if sum_extra(ships) >= net {
            0int
        } else {
            net - sum_extra(ships)
        },
        sum_added(spec_absorb(net, ships).1) == net - spec_absorb(net, ships).0,
        forall|k: int|
            0 <= k < spec_absorb(net, ships).1.len() ==> {
                let s = #[trigger] spec_absorb(net, ships).1[k];
                &&& s.added matches Some(a) && a > 0
                &&& s.extra_quantity >= 0
            },
    decreases ships.len(),
{
    if net <= 0 || ships.len() == 0 {
        lemma_sum_extra_nonneg(ships);
    } else {
        let s = ships[0];
        assert(forall|k: int|
            0 <= k < ships.drop_first().len() ==> 0 <= (#[trigger] ships.drop_first()[
                k
            ]).extra_quantity);
        let alloc: int = if s.extra_quantity <= net {
            s.extra_quantity as int
        } else {
            net
        };
        lemma_absorb_accounting(net - alloc, ships.drop_first());
        lemma_sum_extra_nonneg(ships.drop_first());
        let tail = spec_absorb(net - alloc, ships.drop_first());
        if alloc > 0 {
            let s2 = UnderAllocatedShipment {
                id: s.id,
                extra_quantity: (s.extra_quantity - alloc) as i64,
                added: Some(alloc as i64),
            };
            assert(spec_absorb(net, ships).1 == seq![s2] + tail.1);
            assert(spec_absorb(net, ships).1[0] == s2);
            assert((seq![s2] + tail.1).drop_first() =~= tail.1);
        }
    }
}

/// The total spare quantity of nonnegative spares is nonnegative.
pub proof fn lemma_sum_extra_nonneg(ships: Seq<UnderAllocatedShipment>)
    requires
        forall|k: int| 0 <= k < ships.len() ==> 0 <= (#[trigger] ships[k]).extra_quantity,
    ensures
        0 <= sum_extra(ships),
    decreases ships.len(),
{
    if ships.len() > 0 {
        assert(forall|k: int|
            0 <= k < ships.drop_first().len() ==> 0 <= (#[trigger] ships.drop_first()[
                k
            ]).extra_quantity);
        lemma_sum_extra_nonneg(ships.drop_first());
    }
}

/// Drains demand into the spare quantity of the under-allocated shipments,
/// greedily and in order, recording per shipment how much it absorbed and
/// keeping only shipments that absorbed something.
pub fn process_under_alocated_shipments(
    net_req: &mut i32,
    under_allocated: &mut Vec<UnderAllocatedShipment>,
)
    requires
        0 <= *old(net_req),
        forall|k: int|
            0 <= k < old(under_allocated)@.len() ==> 0 <= (#[trigger] old(under_allocated)@[
                k
            ]).extra_quantity,
    ensures
        *final(net_req) == spec_absorb(*old(net_req) as int, old(under_allocated)@).0,
        final(under_allocated)@ == spec_absorb(*old(net_req) as int, old(under_allocated)@).1,
        0 <= *final(net_req) <= *old(net_req),
{
    let ghost net0 = *net_req as int;
    let ghost ships0 = under_allocated@;
    let mut result: Vec<UnderAllocatedShipment> = Vec::new();
    let mut i: usize = 0;
    let n = under_allocated.len();
    proof {
        assert(ships0.subrange(0, n as int) =~= ships0);
        match spec_absorb(net0, ships0) {
            (_, kept) => {
                assert(Seq::<UnderAllocatedShipment>::empty() + kept =~= kept);
            },
        }
    }
    while i < n
        invariant
            0 <= i <= n,
            n == under_allocated@.len(),
            under_allocated@ == ships0,
            0 <= *net_req <= net0,
            net0 <= i32::MAX,
            forall|k: int| 0 <= k < ships0.len() ==> 0 <= (#[trigger] ships0[k]).extra_quantity,
            spec_absorb(net0, ships0) == {
                let t = spec_absorb(*net_req as int, ships0.subrange(i as int, n as int));
                (t.0, result@ + t.1)
            },
        decreases n - i,
    {
        let ghost result0 = result@;
        let s = under_allocated[i];
        let net = *net_req;
        proof {
            let tail = ships0.subrange(i as int, n as int);
            assert(tail[0] == ships0[i as int]);
            assert(tail.drop_first() =~= ships0.subrange(i as int + 1, n as int));
        }
        if net > 0 {
            let alloc: i64 = if s.extra_quantity <= net as i64 {
                s.extra_quantity
            } else {
                net as i64
            };
            *net_req = net - alloc as i32;
            if alloc > 0 {
                result.push(
                    UnderAllocatedShipment {
                        id: s.id,
                        extra_quantity: s.extra_quantity - alloc,
                        added: Some(alloc),
                    },
                );
            }
            proof {
                match spec_absorb(
                    *net_req as int,
                    ships0.subrange(i as int + 1, n as int),
                ) {
                    (_, kept) => {
                        if alloc > 0 {
                            let s2 = UnderAllocatedShipment {
                                id: s.id,
                                extra_quantity: (s.extra_quantity - alloc as int) as i64,
                                added: Some(alloc),
                            };
                            assert(result0 + (seq![s2] + kept) =~= result@ + kept);
                        }
                    },
                }
            }
        }
        i += 1;
    }
    *under_allocated = result;
    proof {
        assert(ships0.subrange(n as int, n as int) =~= Seq::<UnderAllocatedShipment>::empty());
        match spec_absorb(*net_req as int, ships0.subrange(n as int, n as int)) {
            (_, kept) => {
                assert(result@ + kept =~= result@);
            },
        }
    }
}

/// An existing shipment and how many items the planner adds to it.
#[derive(Clone, Copy, Debug, PartialEq, Eq, Structural)]
pub struct AlteredShipment {
    pub id: i64,
    pub added: i64,
}

/// The altered-shipment records for the kept under-allocated shipments.
pub open spec fn spec_altered(ships: Seq<UnderAllocatedShipment>) -> Seq<AlteredShipment> {
    ships.map_values(|s: UnderAllocatedShipment| AlteredShipment { id: s.id, added: s.added->Some_0 })
}

/// The purchase the planner issues for a day: among the suppliers that can
/// deliver within the available time, the shipment with the lowest cost,
/// ties broken by the lowest supplier id.
pub open spec fn spec_cheapest(
    suppliers: Seq<Supplier>,
    net_req: int,
    due_date: int,
    available_time: int,
) -> Option<Shipment>
    decreases suppliers.len(),
{
    if suppliers.len() == 0 {
        None
    } else {
        let rest = spec_cheapest(suppliers.drop_last(), net_req, due_date, available_time);
        let s = suppliers.last();
        if s.delivery_time > available_time {
            rest
        } else {
            let ship = s.spec_shipment(net_req, due_date);
            match rest {
                None => Some(ship),
                Some(b) => if ship.cost.cents < b.cost.cents || (ship.cost.cents == b.cost.cents
                    && ship.supplier_id < b.supplier_id) {
                    Some(ship)
                } else {
                    Some(b)
                },
            }
        }
    }
}

/// The chosen purchase comes from an eligible supplier and no eligible
/// supplier's shipment is cheaper (nor as cheap from a lower supplier id);
/// when nothing is chosen, no supplier is eligible.
pub proof fn lemma_cheapest_props(
    suppliers: Seq<Supplier>,
    net_req: int,
    due_date: int,
    available_time: int,
)
    ensures
        match spec_cheapest(suppliers, net_req, due_date, available_time) {
            Some(ship) => (exists|j: int|
                0 <= j < suppliers.len() && (#[trigger] suppliers[j]).delivery_time
                    <= available_time && ship == suppliers[j].spec_shipment(net_req, due_date))
                && (forall|j: int|
                0 <= j < suppliers.len() && (#[trigger] suppliers[j]).delivery_time
                    <= available_time ==> {
                    let other = suppliers[j].spec_shipment(net_req, due_date);
                    ship.cost.cents < other.cost.cents || (ship.cost.cents == other.cost.cents
                        && ship.supplier_id <= other.supplier_id)
                }),
            None => forall|j: int|
                0 <= j < suppliers.len() ==> (#[trigger] suppliers[j]).delivery_time
                    > available_time,
        },
    decreases suppliers.len(),
{
    if suppliers.len() > 0 {
        lemma_cheapest_props(suppliers.drop_last(), net_req, due_date, available_time);
        let prefix = suppliers.drop_last();
        assert(forall|j: int| 0 <= j < prefix.len() ==> prefix[j] == suppliers[j]);
        assert(suppliers.last() == suppliers[suppliers.len() - 1]);
        match spec_cheapest(prefix, net_req, due_date, available_time) {
            Some(b) => {
                let j = choose|j: int|
                    0 <= j < prefix.len() && (#[trigger] prefix[j]).delivery_time
                        <= available_time && b == prefix[j].spec_shipment(net_req, due_date);
                assert(suppliers[j].delivery_time <= available_time && b == suppliers[
                    j
                ].spec_shipment(net_req, due_date));
            },
            None => {},
        }
    }
}

/// Everything the planner knows about one raw-material variant's demand on
/// one day.
#[derive(Debug)]
pub struct DayVariantNeedsData {
    pub due_date: i32,
    pub net_req: i32,
    pub variant: RawMaterial,
    pub under_allocated: Vec<UnderAllocatedShipment>,
    pub suppliers: Vec<Supplier>,
}

/// What purchase planning for one day decided: the new purchase order, if
/// any, and the existing shipments that absorbed demand.
#[derive(Debug)]
pub struct PurchaseProcessingResults {
    pub purchase_order: Option<Shipment>,
    pub altered_shipments: Vec<AlteredShipment>,
}

/// True of supplier rows the purchase arithmetic can handle: nonnegative
/// terms, a unit price and minimum order small enough that a shipment's
/// cost fits, and a delivery time that keeps the request day in range.
pub open spec fn supplier_row_ok(s: Supplier, due_date: int) -> bool {
    &&& 0 <= s.min_order_quantity <= 1000000
    &&& 0 <= s.unit_price.cents <= 1000000000
    &&& 0 <= s.delivery_time
    &&& i32::MIN <= due_date - s.delivery_time
}

/// Plans one day of one variant: absorbs the demand into the spare capacity
/// of existing shipments first, and only then, if demand remains and the
/// day is not already past, buys from the cheapest supplier that can still
/// deliver in time.
pub fn process_purchases(needs: &mut DayVariantNeedsData, current_date: u32) -> (r:
    PurchaseProcessingResults)
    requires
        0 <= old(needs).net_req <= 1000000,
        current_date <= i32::MAX,
        forall|k: int|
            0 <= k < old(needs).under_allocated@.len() ==> 0 <= (#[trigger] old(
                needs,
            ).under_allocated@[k]).extra_quantity,
        forall|k: int|
            0 <= k < old(needs).suppliers@.len() ==> supplier_row_ok(
                #[trigger] old(needs).suppliers@[k],
                old(needs).due_date as int,
            ),
    ensures
        ({
            let a = spec_absorb(old(needs).net_req as int, old(needs).under_allocated@);
            let available = old(needs).due_date as int - current_date as int;
            &&& final(needs).net_req == a.0
            &&& final(needs).under_allocated@ == a.1
            &&& final(needs).due_date == old(needs).due_date
            &&& final(needs).variant == old(needs).variant
            &&& final(needs).suppliers@ == old(needs).suppliers@
            &&& r.altered_shipments@ == spec_altered(a.1)
            &&& r.purchase_order == (if available < 0 || a.0 == 0 {
                None::<Shipment>
            } else {
                spec_cheapest(old(needs).suppliers@, a.0, old(needs).due_date as int, available)
            })
            &&& (r.purchase_order is Some ==> a.0 > 0)
        }),
{
    let ghost net0 = needs.net_req as int;
    let ghost ships0 = needs.under_allocated@;
    process_under_alocated_shipments(&mut needs.net_req, &mut needs.under_allocated);
    proof {
        lemma_absorb_accounting(net0, ships0);
    }

    let mut altered: Vec<AlteredShipment> = Vec::new();
    let mut i: usize = 0;
    while i < needs.under_allocated.len()
        invariant
            0 <= i <= needs.under_allocated@.len(),
            altered@.len() == i,
            needs.under_allocated@ == spec_absorb(net0, ships0).1,
            forall|k: int|
                0 <= k < needs.under_allocated@.len() ==> (#[trigger] needs.under_allocated@[
                    k
                ]).added is Some,
            forall|k: int|
                0 <= k < i ==> #[trigger] altered@[k] == spec_altered(needs.under_allocated@)[k],
        decreases needs.under_allocated@.len() - i,
    {
        let s = needs.under_allocated[i];
        let a = match s.added {
            Some(a) => a,
            None => {
                proof {
                    assert(false);
                }
                0
            },
        };
        altered.push(AlteredShipment { id: s.id, added: a });
        i += 1;
    }
    proof {
        assert(altered@ =~= spec_altered(needs.under_allocated@));
    }

    let due = needs.due_date;
    let available: i64 = due as i64 - current_date as i64;
    if available < 0 {
        return PurchaseProcessingResults { purchase_order: None, altered_shipments: altered };
    }
    if needs.net_req == 0 {
        return PurchaseProcessingResults { purchase_order: None, altered_shipments: altered };
    }
    let net = needs.net_req;

    let mut best: Option<Shipment> = None;
    let mut j: usize = 0;
    proof {
        assert(needs.suppliers@.subrange(0, 0) =~= Seq::<Supplier>::empty());
    }
    while j < needs.suppliers.len()
        invariant
            0 <= j <= needs.suppliers@.len(),
            0 <= net <= 1000000,
            i32::MIN <= due,
            0 <= available <= i32::MAX,
            available == due as int - current_date as int,
            forall|k: int|
                0 <= k < needs.suppliers@.len() ==> supplier_row_ok(
                    #[trigger] needs.suppliers@[k],
                    due as int,
                ),
            best == spec_cheapest(
                needs.suppliers@.subrange(0, j as int),
                net as int,
                due as int,
                available as int,
            ),
        decreases needs.suppliers@.len() - j,
    {
        let s = needs.suppliers[j];
        proof {
            assert(needs.suppliers@.subrange(0, j + 1 as int).drop_last() =~= needs.suppliers@
                .subrange(0, j as int));
            assert(needs.suppliers@.subrange(0, j + 1 as int).last() == needs.suppliers@[
                j as int
            ]);
        }
        if s.can_deliver_in(available as i32) {
            proof {
                assert(supplier_row_ok(needs.suppliers@[j as int], due as int));
                assert(0 <= s.spec_shipment_quantity(net as int) <= 1000000);
                assert(s.spec_shipment_quantity(net as int) * s.unit_price.cents
                    <= 1000000000000000i64) by (nonlinear_arith)
                    requires
                        0 <= s.spec_shipment_quantity(net as int) <= 1000000,
                        0 <= s.unit_price.cents <= 1000000000,
                ;
                assert(0 <= s.spec_shipment_quantity(net as int) * s.unit_price.cents)
                    by (nonlinear_arith)
                    requires
                        0 <= s.spec_shipment_quantity(net as int),
                        0 <= s.unit_price.cents,
                ;
            }
            let ship = s.shipment(net, due);
            best = match best {
                None => Some(ship),
                Some(b) => {
                    if ship.cost().cents < b.cost.cents || (ship.cost().cents == b.cost.cents
                        && ship.supplier_id < b.supplier_id) {
                        Some(ship)
                    } else {
                        Some(b)
                    }
                },
            };
        }
        j += 1;
    }
    proof {
        assert(needs.suppliers@.subrange(0, needs.suppliers@.len() as int) =~= needs.suppliers@);
    }
    PurchaseProcessingResults { purchase_order: best, altered_shipments: altered }
}

/// Under-allocated shipments absorb demand before any new purchase: when
/// their spare quantity covers the whole demand, nothing remains to buy,
/// and `process_purchases` then issues no purchase order.
pub proof fn lemma_absorption_before_purchase(net: int, ships: Seq<UnderAllocatedShipment>)
    requires
        0 <= net,
        forall|k: int| 0 <= k < ships.len() ==> 0 <= (#[trigger] ships[k]).extra_quantity,
        sum_extra(ships) >= net,
    ensures
        spec_absorb(net, ships).0 == 0,
{
    lemma_absorb_accounting(net, ships);
}

/// A nonnegative clamp.
pub open spec fn clamp0(n: int) -> int {
    if n < 0 {
        0
    } else {
        n
    }
}

/// The pending items whose transformation needs them on one day, in their
/// first-come order.
pub open spec fn spec_eligible(pending: Seq<RawMaterialDetails>, day: i32) -> Seq<
    RawMaterialDetails,
>
    decreases pending.len(),
{
    if pending.len() == 0 {
        Seq::<RawMaterialDetails>::empty()
    } else {
        let head = if pending[0].due_date == day {
            seq![pending[0]]
        } else {
            Seq::<RawMaterialDetails>::empty()
        };
        head + spec_eligible(pending.drop_first(), day)
    }
}

/// Extending the pending list extends its one-day selection at the end.
proof fn lemma_eligible_push(pending: Seq<RawMaterialDetails>, day: i32, p: RawMaterialDetails)
    ensures
        spec_eligible(pending.push(p), day) == spec_eligible(pending, day) + (if p.due_date
            == day {
            seq![p]
        } else {
            Seq::<RawMaterialDetails>::empty()
        }),
    decreases pending.len(),
{
    let tail = if p.due_date == day {
        seq![p]
    } else {
        Seq::<RawMaterialDetails>::empty()
    };
    if pending.len() == 0 {
        assert(pending.push(p)[0] == p);
        assert(pending.push(p).drop_first() =~= Seq::<RawMaterialDetails>::empty());
        assert(spec_eligible(Seq::<RawMaterialDetails>::empty(), day)
            == Seq::<RawMaterialDetails>::empty());
        assert(spec_eligible(pending, day) == Seq::<RawMaterialDetails>::empty());
        assert(spec_eligible(pending.push(p), day) =~= tail);
        assert(spec_eligible(pending, day) + tail =~= tail);
    } else {
        lemma_eligible_push(pending.drop_first(), day, p);
        assert(pending.push(p)[0] == pending[0]);
        assert(pending.push(p).drop_first() =~= pending.drop_first().push(p));
        let head = if pending[0].due_date == day {
            seq![pending[0]]
        } else {
            Seq::<RawMaterialDetails>::empty()
        };
        assert(spec_eligible(pending.push(p), day) == head + (spec_eligible(
            pending.drop_first(),
            day,
        ) + tail));
        assert(head + (spec_eligible(pending.drop_first(), day) + tail) =~= (head
            + spec_eligible(pending.drop_first(), day)) + tail);
    }
}

/// The links that hand a run of eligible items to one shipment.
pub open spec fn spec_take_links(es: Seq<RawMaterialDetails>, id: i64) -> Seq<MaterialShipment> {
    es.map_values(|p: RawMaterialDetails| MaterialShipment {
        raw_material_id: p.item_id,
        shipment_id: id,
    })
}

/// The link rows for one day: each altered shipment takes as many eligible
/// items as it absorbed, in order; the new shipment, if any, takes the
/// residual demand's worth of what is left.
pub open spec fn spec_links(
    elig: Seq<RawMaterialDetails>,
    altered: Seq<AlteredShipment>,
    new_shipment: Option<(i64, i32)>,
) -> Seq<MaterialShipment>
    decreases altered.len(),
{
    if altered.len() > 0 {
        let a = altered[0];
        let take = vstd::math::min(clamp0(a.added as int), elig.len() as int);
        spec_take_links(elig.take(take), a.id) + spec_links(
            elig.skip(take),
            altered.drop_first(),
            new_shipment,
        )
    } else {
        match new_shipment {
            Some((id, n)) => {
                let take = vstd::math::min(clamp0(n as int), elig.len() as int);
                spec_take_links(elig.take(take), id)
            },
            None => Seq::<MaterialShipment>::empty(),
        }
    }
}

/// The whole allocation a day's plan can hand out: everything the altered
/// shipments absorbed plus the new shipment's share.
pub open spec fn total_alloc(altered: Seq<AlteredShipment>, new_shipment: Option<(i64, i32)>)
    -> int
    decreases altered.len(),
{
    if altered.len() > 0 {
        clamp0(altered[0].added as int) + total_alloc(altered.drop_first(), new_shipment)
    } else {
        match new_shipment {
            Some((_, n)) => clamp0(n as int),
            None => 0,
        }
    }
}

/// A day's allocation is nonnegative.
proof fn lemma_total_alloc_nonneg(altered: Seq<AlteredShipment>, new_shipment: Option<(i64, i32)>)
    ensures
        0 <= total_alloc(altered, new_shipment),
    decreases altered.len(),
{
    if altered.len() > 0 {
        lemma_total_alloc_nonneg(altered.drop_first(), new_shipment);
    }
}

/// The day's links pair the eligible items in order, one link per item,
/// until the items or the allocation run out.
pub proof fn lemma_links_pairing(
    elig: Seq<RawMaterialDetails>,
    altered: Seq<AlteredShipment>,
    new_shipment: Option<(i64, i32)>,
)
    ensures
        spec_links(elig, altered, new_shipment).len() == vstd::math::min(
            elig.len() as int,
            total_alloc(altered, new_shipment),
        ),
        forall|k: int|
            0 <= k < spec_links(elig, altered, new_shipment).len() ==> (#[trigger] spec_links(
                elig,
                altered,
                new_shipment,
            )[k]).raw_material_id == elig[k].item_id,
    decreases altered.len(),
{
    if altered.len() > 0 {
        let a = altered[0];
        let take = vstd::math::min(clamp0(a.added as int), elig.len() as int);
        lemma_links_pairing(elig.skip(take), altered.drop_first(), new_shipment);
        lemma_total_alloc_nonneg(altered.drop_first(), new_shipment);
        let seg = spec_take_links(elig.take(take), a.id);
        let rest = spec_links(elig.skip(take), altered.drop_first(), new_shipment);
        assert(seg.len() == take);
        assert forall|k: int|
            0 <= k < spec_links(elig, altered, new_shipment).len() implies (#[trigger] spec_links(
            elig,
            altered,
            new_shipment,
        )[k]).raw_material_id == elig[k].item_id by {
            if k < take {
                assert(spec_links(elig, altered, new_shipment)[k] == seg[k]);
                assert(elig.take(take)[k] == elig[k]);
            } else {
                assert(spec_links(elig, altered, new_shipment)[k] == rest[k - take]);
                assert(elig.skip(take)[k - take] == elig[k]);
            }
        }
    } else {
        match new_shipment {
            Some((id, n)) => {
                let take = vstd::math::min(clamp0(n as int), elig.len() as int);
                assert forall|k: int|
                    0 <= k < spec_links(elig, altered, new_shipment).len() implies (
                #[trigger] spec_links(elig, altered, new_shipment)[k]).raw_material_id == elig[
                    k
                ].item_id by {
                    assert(elig.take(take)[k] == elig[k]);
                }
            },
            None => {},
        }
    }
}

/// When every pending item of the day can be covered, the day's plan links
/// each of them exactly once: absorption covers part of the demand, the new
/// purchase the rest. Nothing is linked twice, and nothing is left over
/// when the items carry distinct identifiers.
pub proof fn lemma_day_coverage(
    net: int,
    ships: Seq<UnderAllocatedShipment>,
    elig: Seq<RawMaterialDetails>,
    new_id: i64,
)
    requires
        0 <= net <= 1000000,
        forall|k: int| 0 <= k < ships.len() ==> 0 <= (#[trigger] ships[k]).extra_quantity,
        elig.len() == net,
        forall|k1: int, k2: int|
            0 <= k1 < k2 < elig.len() ==> (#[trigger] elig[k1]).item_id != (#[trigger] elig[
                k2
            ]).item_id,
    ensures
        ({
            let residual = spec_absorb(net, ships).0;
            let altered = spec_altered(spec_absorb(net, ships).1);
            let new_shipment = if residual > 0 {
                Some((new_id, residual as i32))
            } else {
                None::<(i64, i32)>
            };
            let links = spec_links(elig, altered, new_shipment);
            &&& links.len() == elig.len()
            &&& forall|k: int|
                0 <= k < links.len() ==> (#[trigger] links[k]).raw_material_id == elig[
                    k
                ].item_id
            &&& forall|k1: int, k2: int|
                0 <= k1 < k2 < links.len() ==> (#[trigger] links[k1]).raw_material_id != (
                #[trigger] links[k2]).raw_material_id
        }),
{
    lemma_absorb_accounting(net, ships);
    lemma_sum_extra_nonneg(ships);
    let residual = spec_absorb(net, ships).0;
    let kept = spec_absorb(net, ships).1;
    assert(0 <= residual && residual <= net);
    let altered = spec_altered(kept);
    let new_shipment = if residual > 0 {
        Some((new_id, residual as i32))
    } else {
        None::<(i64, i32)>
    };
    lemma_altered_alloc(kept, new_shipment);
    assert(total_alloc(altered, new_shipment) == sum_added(kept) + (if residual > 0 {
        residual
    } else {
        0
    }));
    lemma_links_pairing(elig, altered, new_shipment);
}

/// The allocation of the altered records equals the absorbed total plus the
/// new shipment's share, for shipments whose recorded amounts are
/// nonnegative.
proof fn lemma_altered_alloc(ships: Seq<UnderAllocatedShipment>, new_shipment: Option<(i64, i32)>)
    requires
        forall|k: int|
            0 <= k < ships.len() ==> ((#[trigger] ships[k]).added matches Some(a) && a >= 0),
    ensures
        total_alloc(spec_altered(ships), new_shipment) == sum_added(ships) + (match new_shipment {
            Some((_, n)) => clamp0(n as int),
            None => 0int,
        }),
    decreases ships.len(),
{
    if ships.len() > 0 {
        assert(forall|k: int|
            0 <= k < ships.drop_first().len() ==> ((#[trigger] ships.drop_first()[k]).added
                matches Some(a) && a >= 0));
        lemma_altered_alloc(ships.drop_first(), new_shipment);
        assert(spec_altered(ships)[0] == AlteredShipment {
            id: ships[0].id,
            added: ships[0].added->Some_0,
        });
        assert(spec_altered(ships).drop_first() =~= spec_altered(ships.drop_first()));
    }
}

/// Counting links distributes over concatenation.
proof fn lemma_links_to_add(a: Seq<MaterialShipment>, b: Seq<MaterialShipment>, id: i64)
    ensures
        links_to(a + b, id) == links_to(a, id) + links_to(b, id),
    decreases a.len(),
{
    if a.len() == 0 {
        assert(a + b =~= b);
    } else {
        lemma_links_to_add(a.drop_first(), b, id);
        assert((a + b)[0] == a[0]);
        assert((a + b).drop_first() =~= a.drop_first() + b);
    }
}

/// A run of links to one shipment counts its length for that shipment and
/// nothing for any other.
proof fn lemma_take_links_count(es: Seq<RawMaterialDetails>, to: i64, id: i64)
    ensures
        links_to(spec_take_links(es, to), id) == if to == id {
            es.len() as int
        } else {
            0
        },
    decreases es.len(),
{
    if es.len() > 0 {
        lemma_take_links_count(es.drop_first(), to, id);
        assert(spec_take_links(es, to)[0] == MaterialShipment {
            raw_material_id: es[0].item_id,
            shipment_id: to,
        });
        assert(spec_take_links(es, to).drop_first() =~= spec_take_links(es.drop_first(), to));
    }
}

/// A freshly inserted shipment never receives more links than its share of
/// the demand, so its link count stays within its quantity, which covers
/// at least that share.
pub proof fn lemma_new_shipment_links_bound(
    elig: Seq<RawMaterialDetails>,
    altered: Seq<AlteredShipment>,
    new_id: i64,
    n: i32,
)
    requires
        forall|j: int| 0 <= j < altered.len() ==> (#[trigger] altered[j]).id != new_id,
    ensures
        links_to(spec_links(elig, altered, Some((new_id, n))), new_id) <= clamp0(n as int),
    decreases altered.len(),
{
    let new_shipment = Some((new_id, n));
    if altered.len() > 0 {
        let a = altered[0];
        let take = vstd::math::min(clamp0(a.added as int), elig.len() as int);
        assert(forall|j: int|
            0 <= j < altered.drop_first().len() ==> (#[trigger] altered.drop_first()[j]).id
                != new_id);
        lemma_new_shipment_links_bound(elig.skip(take), altered.drop_first(), new_id, n);
        lemma_links_to_add(
            spec_take_links(elig.take(take), a.id),
            spec_links(elig.skip(take), altered.drop_first(), new_shipment),
            new_id,
        );
        lemma_take_links_count(elig.take(take), a.id, new_id);
    } else {
        let take = vstd::math::min(clamp0(n as int), elig.len() as int);
        lemma_take_links_count(elig.take(take), new_id, new_id);
    }
}

/// The link rows a day's plan writes, and whether the freshly inserted
/// shipment ended up unused and must be deleted in the same transaction.
#[derive(Debug)]
pub struct LinkagePlan {
    pub links: Vec<MaterialShipment>,
    pub delete_new_shipment: bool,
}

/// How many of the links hand an item to the shipment with this id.
pub open spec fn links_to(links: Seq<MaterialShipment>, id: i64) -> int
    decreases links.len(),
{
    if links.len() == 0 {
        0
    } else {
        (if links[0].shipment_id == id {
            1int
        } else {
            0int
        }) + links_to(links.drop_first(), id)
    }
}

/// Counting distributes over appending one link.
proof fn lemma_links_to_push(links: Seq<MaterialShipment>, l: MaterialShipment, id: i64)
    ensures
        links_to(links.push(l), id) == links_to(links, id) + (if l.shipment_id == id {
            1int
        } else {
            0int
        }),
    decreases links.len(),
{
    if links.len() == 0 {
        assert(links.push(l)[0] == l);
        assert(links.push(l).drop_first() =~= Seq::<MaterialShipment>::empty());
        assert(links_to(Seq::<MaterialShipment>::empty(), id) == 0);
        assert(links_to(links, id) == 0);
        assert(links_to(links.push(l), id) == (if l.shipment_id == id {
            1int
        } else {
            0int
        }) + links_to(links.push(l).drop_first(), id));
    } else {
        lemma_links_to_push(links.drop_first(), l, id);
        assert(links.push(l)[0] == links[0]);
        assert(links.push(l).drop_first() =~= links.drop_first().push(l));
    }
}

/// Draws up the link rows for one day: each altered shipment takes as many
/// of the day's pending items as it absorbed, first come first served; the
/// new shipment, if any, takes the residual demand's worth of what is left.
/// The new shipment is marked for deletion when no item reached it.
pub fn plan_day_linkage(
    pending: &Vec<RawMaterialDetails>,
    due_date: i32,
    altered: &Vec<AlteredShipment>,
    new_shipment: Option<(i64, i32)>,
) -> (r: LinkagePlan)
    ensures
        r.links@ == spec_links(spec_eligible(pending@, due_date), altered@, new_shipment),
        r.delete_new_shipment == (match new_shipment {
            Some((id, _)) => links_to(r.links@, id) == 0,
            None => false,
        }),
{
    let ghost full = spec_eligible(pending@, due_date);

    // The day's eligible items, in order.
    let mut elig: Vec<RawMaterialDetails> = Vec::new();
    let mut i: usize = 0;
    proof {
        assert(pending@.subrange(0, 0) =~= Seq::<RawMaterialDetails>::empty());
    }
    while i < pending.len()
        invariant
            0 <= i <= pending@.len(),
            elig@ == spec_eligible(pending@.subrange(0, i as int), due_date),
        decreases pending@.len() - i,
    {
        let p = pending[i];
        proof {
            lemma_eligible_push(pending@.subrange(0, i as int), due_date, p);
            assert(pending@.subrange(0, i as int).push(p) =~= pending@.subrange(
                0,
                i as int + 1,
            ));
            if p.due_date == due_date {
                assert(spec_eligible(pending@.subrange(0, i as int), due_date) + seq![p]
                    =~= elig@.push(p));
            } else {
                assert(spec_eligible(pending@.subrange(0, i as int), due_date)
                    + Seq::<RawMaterialDetails>::empty() =~= elig@);
            }
        }
        if p.due_date == due_date {
            elig.push(p);
        }
        i += 1;
    }
    proof {
        assert(pending@.subrange(0, pending@.len() as int) =~= pending@);
    }

    // Hand items to the altered shipments, in order.
    let mut links: Vec<MaterialShipment> = Vec::new();
    let mut pos: usize = 0;
    let mut j: usize = 0;
    proof {
        assert(full.skip(0) =~= full);
        assert(altered@.subrange(0, altered@.len() as int) =~= altered@);
        assert(Seq::<MaterialShipment>::empty() + spec_links(full, altered@, new_shipment)
            =~= spec_links(full, altered@, new_shipment));
    }
    while j < altered.len()
        invariant
            0 <= j <= altered@.len(),
            0 <= pos <= elig@.len(),
            elig@ == full,
            spec_links(full, altered@, new_shipment) == links@ + spec_links(
                full.skip(pos as int),
                altered@.subrange(j as int, altered@.len() as int),
                new_shipment,
            ),
        decreases altered@.len() - j,
    {
        let a = altered[j];
        let remaining = elig.len() - pos;
        let want: i64 = if a.added < 0 {
            0
        } else {
            a.added
        };
        let take: usize = if want <= 0 {
            0
        } else if want as u64 >= remaining as u64 {
            remaining
        } else {
            want as usize
        };
        proof {
            let tail = altered@.subrange(j as int, altered@.len() as int);
            assert(tail[0] == altered@[j as int]);
            assert(tail.drop_first() =~= altered@.subrange(j as int + 1, altered@.len() as int));
            assert(full.skip(pos as int).len() == full.len() - pos);
            assert(take as int == vstd::math::min(
                clamp0(a.added as int),
                full.skip(pos as int).len() as int,
            ));
        }
        let ghost links0 = links@;
        let mut t: usize = 0;
        while t < take
            invariant
                0 <= t <= take,
                pos + take <= elig@.len(),
                elig@.len() <= usize::MAX,
                elig@ == full,
                links@ == links0 + spec_take_links(
                    full.subrange(pos as int, pos as int + t as int),
                    a.id,
                ),
            decreases take - t,
        {
            let p = elig[pos + t];
            let ghost before = links@;
            links.push(MaterialShipment { raw_material_id: p.item_id, shipment_id: a.id });
            t += 1;
            proof {
                let seg = full.subrange(pos as int, pos as int + t as int);
                assert(seg.drop_last() =~= full.subrange(pos as int, pos as int + t - 1));
                assert(spec_take_links(seg, a.id) =~= spec_take_links(seg.drop_last(), a.id)
                    .push(MaterialShipment {
                    raw_material_id: seg.last().item_id,
                    shipment_id: a.id,
                }));
                assert(seg.last() == full[pos as int + t - 1]);
            }
        }
        proof {
            assert(full.skip(pos as int).take(take as int) =~= full.subrange(
                pos as int,
                pos as int + take as int,
            ));
            assert(full.skip(pos as int).skip(take as int) =~= full.skip(
                pos as int + take as int,
            ));
        }
        pos = pos + take;
        j += 1;
    }
    proof {
        assert(altered@.subrange(altered@.len() as int, altered@.len() as int)
            =~= Seq::<AlteredShipment>::empty());
    }

    // Hand what is left to the new shipment.
    if let Some((new_id, n)) = new_shipment {
        let remaining = elig.len() - pos;
        let want: i64 = if n < 0 {
            0
        } else {
            n as i64
        };
        let take: usize = if want <= 0 {
            0
        } else if want as u64 >= remaining as u64 {
            remaining
        } else {
            want as usize
        };
        proof {
            assert(full.skip(pos as int).len() == full.len() - pos);
            assert(take as int == vstd::math::min(
                clamp0(n as int),
                full.skip(pos as int).len() as int,
            ));
        }
        let ghost links0 = links@;
        let mut t: usize = 0;
        while t < take
            invariant
                0 <= t <= take,
                pos + take <= elig@.len(),
                elig@.len() <= usize::MAX,
                elig@ == full,
                links@ == links0 + spec_take_links(
                    full.subrange(pos as int, pos as int + t as int),
                    new_id,
                ),
            decreases take - t,
        {
            let p = elig[pos + t];
            links.push(MaterialShipment { raw_material_id: p.item_id, shipment_id: new_id });
            t += 1;
            proof {
                let seg = full.subrange(pos as int, pos as int + t as int);
                assert(seg.drop_last() =~= full.subrange(pos as int, pos as int + t - 1));
                assert(spec_take_links(seg, new_id) =~= spec_take_links(seg.drop_last(), new_id)
                    .push(MaterialShipment {
                    raw_material_id: seg.last().item_id,
                    shipment_id: new_id,
                }));
                assert(seg.last() == full[pos as int + t - 1]);
            }
        }
        proof {
            assert(full.skip(pos as int).take(take as int) =~= full.subrange(
                pos as int,
                pos as int + take as int,
            ));
        }

        // Count the links that reached the new shipment.
        let mut count: usize = 0;
        let mut c: usize = 0;
        proof {
            assert(links@.subrange(0, 0) =~= Seq::<MaterialShipment>::empty());
        }
        while c < links.len()
            invariant
                0 <= c <= links@.len(),
                0 <= count <= c,
                count as int == links_to(links@.subrange(0, c as int), new_id),
            decreases links@.len() - c,
        {
            let l = links[c];
            proof {
                lemma_links_to_push(links@.subrange(0, c as int), links@[c as int], new_id);
                assert(links@.subrange(0, c as int).push(links@[c as int]) =~= links@.subrange(
                    0,
                    c as int + 1,
                ));
            }
            if l.shipment_id == new_id {
                count += 1;
            }
            c += 1;
        }
        proof {
            assert(links@.subrange(0, links@.len() as int) =~= links@);
        }
        LinkagePlan { links, delete_new_shipment: count == 0 }
    } else {
        proof {
            assert(links@ + Seq::<MaterialShipment>::empty() =~= links@);
        }
        LinkagePlan { links, delete_new_shipment: false }
    }
}

} // verus!

