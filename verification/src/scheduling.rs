//! The backward scheduler: walks a unit's step list from the product end,
//! packing operation times into per-day budgets backward from the day before
//! the due date, and the whole-order pacing model; together they turn a
//! pending order into dated blueprints.

use vstd::prelude::*;

use crate::TIME_IN_DAY;
use crate::blueprint::{wf_process, ItemBlueprint, Step};
use crate::items::{Item, ItemStatus};
use crate::orders::{Order, OrderStatus};
use crate::recipes::{
    get_full_recipe, lemma_full_recipe_chain, spec_full_recipe, Recipe, MAX_RECIPE_DEPTH,
};
use crate::transformations::Transformation;

verus! {

/// How many units the factory can work on in parallel.
pub const DEFAULT_PARALLELISM_CAPACITY: i64 = 3;

/// The share of production time assumed lost to logistics, in percent.
pub const DEFAULT_LOGISTICS_PERCENT: i64 = 25;

/// The total operation time of a recipe chain.
pub open spec fn sum_ops(ops: Seq<i64>) -> int
    decreases ops.len(),
{
    if ops.len() == 0 {
        0
    } else {
        ops[0] + sum_ops(ops.drop_first())
    }
}

/// A sum of nonnegative operation times is nonnegative.
pub proof fn lemma_sum_ops_nonneg(ops: Seq<i64>)
    requires
        forall|k: int| 0 <= k < ops.len() ==> 0 <= #[trigger] ops[k],
    ensures
        0 <= sum_ops(ops),
    decreases ops.len(),
{
    if ops.len() > 0 {
        assert(forall|k: int|
            0 <= k < ops.drop_first().len() ==> 0 <= #[trigger] ops.drop_first()[k]);
        lemma_sum_ops_nonneg(ops.drop_first());
    }
}

/// The backward walk: each step adds its time to the day's budget; when the
/// budget overflows the walk moves one day earlier and the budget resets;
/// the walk fails as soon as a step would land before the day after the
/// clock. Returns the day of each step, product end first.
pub open spec fn spec_backward_days(ops: Seq<i64>, day: int, acc: int, current: int) -> Option<
    Seq<i32>,
>
    decreases ops.len(),
{
    if ops.len() == 0 {
        Some(Seq::<i32>::empty())
    } else {
        let filled = acc + ops[0];
        let day2 = if filled > TIME_IN_DAY {
            day - 1
        } else {
            day
        };
        let acc2 = if filled > TIME_IN_DAY {
            0
        } else {
            filled
        };
        if day2 < current + 1 {
            None
        } else {
            match spec_backward_days(ops.drop_first(), day2, acc2, current) {
                None => None,
                Some(rest) => Some(seq![day2 as i32] + rest),
            }
        }
    }
}

/// Every day of a successful walk lies between the day after the clock and
/// the walk's starting day, and one day is assigned per step.
pub proof fn lemma_backward_days_bounds(
    ops: Seq<i64>,
    day: int,
    acc: int,
    current: int,
    days: Seq<i32>,
)
    requires
        spec_backward_days(ops, day, acc, current) == Some(days),
        i32::MIN <= day <= i32::MAX,
        i32::MIN <= current <= i32::MAX,
    ensures
        days.len() == ops.len(),
        forall|k: int| 0 <= k < days.len() ==> current + 1 <= #[trigger] days[k] <= day,
        days.len() > 0 ==> days.last() <= days[0],
    decreases ops.len(),
{
    if ops.len() > 0 {
        let filled = acc + ops[0];
        let day2 = if filled > TIME_IN_DAY {
            day - 1
        } else {
            day
        };
        let acc2 = if filled > TIME_IN_DAY {
            0
        } else {
            filled
        };
        let rest = spec_backward_days(ops.drop_first(), day2, acc2, current)->Some_0;
        lemma_backward_days_bounds(ops.drop_first(), day2, acc2, current, rest);
        assert(current + 1 <= day2 <= i32::MAX);
        assert(days[0] == day2 as i32);
        assert(days[0] == day2);
        assert(forall|k: int| 1 <= k < days.len() ==> days[k] == rest[k - 1]);
        if rest.len() > 0 {
            assert(days.last() == rest.last());
        }
    }
}

/// The due date allows no work: every step must land at least one day
/// before the due date and strictly after the current day, and with
/// `due_date == current + 1` no such day exists.
pub proof fn lemma_next_day_due_infeasible(ops: Seq<i64>, due_date: int, current: int)
    requires
        ops.len() > 0,
        due_date == current + 1,
        forall|k: int| 0 <= k < ops.len() ==> 0 <= #[trigger] ops[k],
    ensures
        spec_backward_days(ops, due_date - 1, 0, current) is None,
{
}

/// With exactly one free day between the clock and the due date, a unit
/// schedules exactly when its whole recipe fits within one day's budget.
pub proof fn lemma_one_day_slack(ops: Seq<i64>, due_date: int, current: int)
    requires
        due_date == current + 2,
        forall|k: int| 0 <= k < ops.len() ==> 0 <= #[trigger] ops[k],
    ensures
        spec_backward_days(ops, due_date - 1, 0, current) is Some <==> sum_ops(ops)
            <= TIME_IN_DAY,
{
    lemma_one_day_slack_acc(ops, current, 0);
}

/// Helper for `lemma_one_day_slack`: the walk pinned to the single free day
/// succeeds exactly when the remaining work still fits the day's budget.
proof fn lemma_one_day_slack_acc(ops: Seq<i64>, current: int, acc: int)
    requires
        0 <= acc <= TIME_IN_DAY,
        forall|k: int| 0 <= k < ops.len() ==> 0 <= #[trigger] ops[k],
    ensures
        spec_backward_days(ops, current + 1, acc, current) is Some <==> acc + sum_ops(ops)
            <= TIME_IN_DAY,
    decreases ops.len(),
{
    if ops.len() > 0 {
        assert(forall|k: int|
            0 <= k < ops.drop_first().len() ==> 0 <= #[trigger] ops.drop_first()[k]);
        let filled = acc + ops[0];
        assert(sum_ops(ops) == ops[0] + sum_ops(ops.drop_first()));
        if filled > TIME_IN_DAY {
            lemma_sum_ops_nonneg(ops.drop_first());
            assert(spec_backward_days(ops, current + 1, acc, current) is None);
            assert(acc + sum_ops(ops) > TIME_IN_DAY);
        } else {
            lemma_one_day_slack_acc(ops.drop_first(), current, filled);
            assert(spec_backward_days(ops, current + 1, acc, current) is Some
                <==> spec_backward_days(ops.drop_first(), current + 1, filled, current) is Some);
        }
    }
}

/// The due date cannot be met.
#[derive(Clone, Copy, Debug, PartialEq, Eq, Structural)]
pub enum ScheduleError {
    InfeasibleDate,
}

/// Runs the backward walk for one unit, starting at `init_day` (the day
/// before the due date for the first unit). Returns one scheduled day per
/// step, product end first, or fails when the due date is infeasible.
pub fn backward_schedule_from(op_times: &Vec<i64>, init_day: i32, current_day: i32) -> (r: Result<
    Vec<i32>,
    ScheduleError,
>)
    requires
        forall|k: int|
            0 <= k < op_times@.len() ==> 0 <= #[trigger] op_times@[k] <= i64::MAX - TIME_IN_DAY,
    ensures
        match r {
            Ok(days) => spec_backward_days(op_times@, init_day as int, 0, current_day as int)
                == Some(days@),
            Err(_) => spec_backward_days(op_times@, init_day as int, 0, current_day as int)
                is None,
        },
{
    let mut days: Vec<i32> = Vec::new();
    let mut day: i64 = init_day as i64;
    let mut acc: i64 = 0;
    let mut i: usize = 0;
    proof {
        assert(op_times@.subrange(0, op_times@.len() as int) =~= op_times@);
        match spec_backward_days(op_times@, init_day as int, 0, current_day as int) {
            None => {},
            Some(rest) => {
                assert(Seq::<i32>::empty() + rest =~= rest);
            },
        }
    }
    while i < op_times.len()
        invariant
            0 <= i <= op_times@.len(),
            days@.len() == i,
            0 <= acc <= TIME_IN_DAY,
            i32::MIN <= day <= i32::MAX,
            forall|k: int|
                0 <= k < op_times@.len() ==> 0 <= #[trigger] op_times@[k] <= i64::MAX
                    - TIME_IN_DAY,
            spec_backward_days(op_times@, init_day as int, 0, current_day as int) == (
            match spec_backward_days(
                op_times@.subrange(i as int, op_times@.len() as int),
                day as int,
                acc as int,
                current_day as int,
            ) {
                None => None::<Seq<i32>>,
                Some(rest) => Some(days@ + rest),
            }),
        decreases op_times@.len() - i,
    {
        let ghost days0 = days@;
        let op = op_times[i];
        proof {
            let tail = op_times@.subrange(i as int, op_times@.len() as int);
            assert(tail[0] == op_times@[i as int]);
            assert(tail.drop_first() =~= op_times@.subrange(
                i as int + 1,
                op_times@.len() as int,
            ));
        }
        let filled = acc + op;
        if filled > TIME_IN_DAY {
            day = day - 1;
            acc = 0;
        } else {
            acc = filled;
        }
        if day < current_day as i64 + 1 {
            return Err(ScheduleError::InfeasibleDate);
        }
        days.push(day as i32);
        i += 1;
        proof {
            match spec_backward_days(
                op_times@.subrange(i as int, op_times@.len() as int),
                day as int,
                acc as int,
                current_day as int,
            ) {
                None => {},
                Some(rest) => {
                    assert(days0 + (seq![day as i32] + rest) =~= days@ + rest);
                },
            }
        }
    }
    proof {
        assert(op_times@.subrange(op_times@.len() as int, op_times@.len() as int)
            =~= Seq::<i64>::empty());
        assert(days@ + Seq::<i32>::empty() =~= days@);
    }
    Ok(days)
}

/// What the whole-order pacing model derives for an order.
#[derive(Clone, Copy, Debug, PartialEq, Eq, Structural)]
pub struct Pacing {
    /// Days the order needs under the parallelism model.
    pub days_needed: i64,
    /// The pacing model's preferred starting day for the first unit.
    pub starting_date: i64,
    /// The capacity model predicts the order cannot finish in time.
    pub late: bool,
}

/// The time one unit spends in production and logistics together.
pub open spec fn spec_inflated_time(per_unit_time: int, logistics_percent: int) -> int {
    per_unit_time + per_unit_time * logistics_percent / 100
}

/// Derives the pacing of a whole order: the days needed under the factory's
/// parallelism, whether the order is predicted late, and the preferred
/// starting day, never earlier than the day after the clock.
pub fn compute_pacing(
    per_unit_time: i64,
    quantity: i32,
    due_date: i32,
    current_day: i32,
    parallelism: i64,
    logistics_percent: i64,
) -> (r: Pacing)
    requires
        0 <= per_unit_time <= 1000000,
        0 <= quantity,
        1 <= parallelism <= 1000000,
        0 <= logistics_percent <= 1000,
    ensures
        r.days_needed == spec_inflated_time(per_unit_time as int, logistics_percent as int)
            * quantity / (TIME_IN_DAY * parallelism),
        r.late == (r.days_needed > due_date - 1 - (current_day + 1)),
        r.starting_date == if current_day + 1 >= due_date - 1 - r.days_needed {
            current_day + 1
        } else {
            due_date - 1 - r.days_needed
        },
{
    proof {
        assert(0 <= per_unit_time * logistics_percent <= 1000000000i64) by (nonlinear_arith)
            requires
                0 <= per_unit_time <= 1000000,
                0 <= logistics_percent <= 1000,
        ;
        assert(0 <= per_unit_time as int * logistics_percent as int / 100 <= per_unit_time as int
            * logistics_percent as int) by (nonlinear_arith)
            requires
                0 <= per_unit_time as int * logistics_percent as int,
        ;
    }
    let inflated = per_unit_time + per_unit_time * logistics_percent / 100;
    proof {
        assert(0 <= inflated as int * (quantity as int) <= 5000000000000000000i64)
            by (nonlinear_arith)
            requires
                0 <= inflated <= 2000000000i64,
                0 <= quantity as int <= 0x8000_0000i64,
        ;
    }
    let total: i64 = inflated * (quantity as i64);
    let days_needed: i64 = total / (TIME_IN_DAY * parallelism);
    proof {
        assert(0 <= days_needed as int <= total as int) by (nonlinear_arith)
            requires
                0 <= total,
                days_needed as int == total as int / (TIME_IN_DAY as int * parallelism as int),
                TIME_IN_DAY as int * parallelism as int >= 1,
        ;
    }
    let completion: i64 = due_date as i64 - 1;
    let earliest: i64 = current_day as i64 + 1;
    let late = days_needed > completion - earliest;
    let starting_date = if earliest >= completion - days_needed {
        earliest
    } else {
        completion - days_needed
    };
    Pacing { days_needed, starting_date, late }
}

/// The initializer-chained walks of an order's units: the first unit walks
/// back from the day before the due date, and each later unit from the
/// previous unit's starting (deepest) day, serializing the units.
pub open spec fn spec_unit_days(ops: Seq<i64>, due_date: int, current: int, u: nat) -> Option<
    Seq<i32>,
>
    decreases u,
{
    if u == 0 {
        spec_backward_days(ops, due_date - 1, 0, current)
    } else {
        match spec_unit_days(ops, due_date, current, (u - 1) as nat) {
            None => None,
            Some(prev) => {
                if prev.len() == 0 {
                    None
                } else {
                    spec_backward_days(ops, prev.last() as int, 0, current)
                }
            },
        }
    }
}

/// Planning failed: the catalog resolves no usable recipe for the ordered
/// piece, or the due date is infeasible.
#[derive(Clone, Copy, Debug, PartialEq, Eq, Structural)]
pub enum PlanError {
    RecipeExhaustion,
    InfeasibleDate,
}

/// The committed plan for a pending order.
#[derive(Debug)]
pub struct OrderPlan {
    /// One dated blueprint per ordered unit.
    pub blueprints: Vec<ItemBlueprint>,
    /// The day the order is promised for delivery.
    pub delivery_day: i32,
    /// What the pacing model predicted, for the caller to log.
    pub pacing: Pacing,
}

/// What handling a new-order notification decided.
#[derive(Debug)]
pub enum NewOrderOutcome {
    /// The order is no longer pending, so a replayed notification changes
    /// nothing.
    AlreadyHandled,
    /// The order was pending and a plan was drawn up.
    Planned(OrderPlan),
}

/// The operation times of a recipe chain, in chain order.
pub open spec fn spec_op_times(chain: Seq<Recipe>) -> Seq<i64> {
    chain.map_values(|r: Recipe| r.operation_time)
}

/// One planned unit is sound: its product item is a fresh pending item of
/// the ordered kind bound to the order, its process hangs together under the
/// full recipe, and its transformations carry exactly the days of this
/// unit's serialized backward walk.
pub open spec fn unit_ok(
    piece: crate::pieces::PieceKind,
    order_id: u128,
    chain: Seq<Recipe>,
    due_date: int,
    current: int,
    bp: ItemBlueprint,
    u: nat,
) -> bool {
    &&& bp.item.piece_kind == piece
    &&& bp.item.order_id == Some(order_id)
    &&& bp.item.status == ItemStatus::Pending
    &&& bp.item.warehouse is None
    &&& bp.item.production_line is None
    &&& bp.item.acc_cost.cents == 0
    &&& wf_process(bp.item, chain, bp.process@)
    &&& match spec_unit_days(spec_op_times(chain), due_date, current, u) {
        Some(days) => bp.process@.len() == days.len() && (forall|k: int|
            0 <= k < bp.process@.len() ==> (#[trigger] bp.process@[k]).transf.date == Some(
                days[k],
            )),
        None => false,
    }
}

/// Builds the dated process for one product item: like the undated
/// blueprint, with each step's transformation carrying its scheduled day.
fn build_process(item: &Item, chain: &Vec<Recipe>, days: &Vec<i32>) -> (r: Vec<Step>)
    requires
        days@.len() == chain@.len(),
    ensures
        wf_process(*item, chain@, r@),
        r@.len() == chain@.len(),
        forall|k: int| 0 <= k < r@.len() ==> (#[trigger] r@[k]).transf.date == Some(days@[k]),
{
    let mut process: Vec<Step> = Vec::new();
    let mut product_id: u128 = item.id();
    let mut i: usize = 0;
    while i < chain.len()
        invariant
            0 <= i <= chain@.len(),
            days@.len() == chain@.len(),
            process@.len() == i,
            wf_process(*item, chain@.subrange(0, i as int), process@),
            product_id == crate::blueprint::chain_tip(*item, process@).id,
            crate::blueprint::chain_tip(*item, process@).order_id == item.order_id,
            forall|k: int|
                0 <= k < process@.len() ==> (#[trigger] process@[k]).transf.date == Some(
                    days@[k],
                ),
        decreases chain@.len() - i,
    {
        let recipe = chain[i];
        let mat = Item::new(recipe.material_kind).set_order(item.order_id());
        let mut transf = Transformation::new(product_id, mat.id(), recipe.id);
        transf.set_date(days[i]);
        let next_id = mat.id();
        let s = Step::new(mat, transf, recipe);
        proof {
            crate::blueprint::lemma_wf_process_push(
                *item,
                chain@.subrange(0, i as int),
                process@,
                s,
            );
            assert(chain@.subrange(0, i as int).push(recipe) =~= chain@.subrange(
                0,
                i as int + 1,
            ));
        }
        process.push(s);
        product_id = next_id;
        i += 1;
    }
    proof {
        assert(chain@.subrange(0, chain@.len() as int) =~= chain@);
    }
    process
}

/// Handles a new-order notification: a no-op for an order that is no longer
/// pending; otherwise resolves the full recipe, derives the pacing, and
/// draws up one serialized, dated blueprint per unit, or fails without any
/// partial plan.
pub fn plan_new_order(order: &Order, catalog: &Vec<Recipe>, current_day: i32) -> (r: Result<
    NewOrderOutcome,
    PlanError,
>)
    requires
        order.quantity >= 0,
        order.due_date > i32::MIN,
        forall|k: int|
            0 <= k < catalog@.len() ==> 0 <= (#[trigger] catalog@[k]).operation_time
                <= TIME_IN_DAY,
    ensures
        order.status != OrderStatus::Pending <==> (r matches Ok(
            NewOrderOutcome::AlreadyHandled,
        )),
        order.status == OrderStatus::Pending ==> {
            let piece = order.piece.spec_as_piece_kind();
            let resolved = spec_full_recipe(catalog@, piece, MAX_RECIPE_DEPTH as nat);
            match resolved {
                None => r == Err::<NewOrderOutcome, PlanError>(PlanError::RecipeExhaustion),
                Some(chain) => {
                    if chain.len() == 0 {
                        r == Err::<NewOrderOutcome, PlanError>(PlanError::RecipeExhaustion)
                    } else {
                        match r {
                            Ok(NewOrderOutcome::Planned(p)) => {
                                &&& p.delivery_day == order.due_date
                                &&& p.blueprints@.len() == order.quantity
                                &&& forall|u: int|
                                    0 <= u < p.blueprints@.len() ==> unit_ok(
                                        piece,
                                        order.id,
                                        chain,
                                        order.due_date as int,
                                        current_day as int,
                                        #[trigger] p.blueprints@[u],
                                        u as nat,
                                    )
                            },
                            Ok(NewOrderOutcome::AlreadyHandled) => false,
                            Err(e) => e == PlanError::InfeasibleDate && (exists|u: int|
                                0 <= u < order.quantity && (#[trigger] spec_unit_days(
                                    spec_op_times(chain),
                                    order.due_date as int,
                                    current_day as int,
                                    u as nat,
                                )) is None),
                        }
                    }
                },
            }
        },
{
    if order.status() != OrderStatus::Pending {
        return Ok(NewOrderOutcome::AlreadyHandled);
    }
    let piece = order.piece();
    let chain = match get_full_recipe(catalog, piece) {
        Ok(c) => c,
        Err(_) => {
            return Err(PlanError::RecipeExhaustion);
        },
    };
    if chain.len() == 0 {
        return Err(PlanError::RecipeExhaustion);
    }
    proof {
        lemma_full_recipe_chain(catalog@, piece, MAX_RECIPE_DEPTH as nat, chain@);
        crate::recipes::lemma_full_recipe_len(catalog@, piece, MAX_RECIPE_DEPTH as nat, chain@);
    }

    // Operation times of the chain; each row of the catalog fits the daily
    // budget, so each link does too, and a chain of at most nine links sums
    // to at most nine day budgets.
    let mut op_times: Vec<i64> = Vec::new();
    let mut per_unit_time: i64 = 0;
    let mut i: usize = 0;
    while i < chain.len()
        invariant
            0 <= i <= chain@.len(),
            chain@.len() <= 9,
            op_times@.len() == i,
            forall|k: int| 0 <= k < i ==> #[trigger] op_times@[k] == chain@[k].operation_time,
            forall|k: int| 0 <= k < i ==> 0 <= #[trigger] op_times@[k] <= TIME_IN_DAY,
            0 <= per_unit_time <= 60 * i,
            forall|k: int|
                0 <= k < catalog@.len() ==> 0 <= (#[trigger] catalog@[k]).operation_time
                    <= TIME_IN_DAY,
            forall|k: int| 0 <= k < chain@.len() ==> catalog@.contains(#[trigger] chain@[k]),
        decreases chain@.len() - i,
    {
        let r = chain[i];
        proof {
            assert(catalog@.contains(chain@[i as int]));
            let j = choose|j: int| 0 <= j < catalog@.len() && catalog@[j] == chain@[i as int];
            assert(0 <= catalog@[j].operation_time <= TIME_IN_DAY);
        }
        op_times.push(r.operation_time);
        per_unit_time = per_unit_time + r.operation_time;
        i += 1;
    }

    let pacing = compute_pacing(
        per_unit_time,
        order.quantity(),
        order.due_date(),
        current_day,
        DEFAULT_PARALLELISM_CAPACITY,
        DEFAULT_LOGISTICS_PERCENT,
    );

    proof {
        assert(op_times@ =~= spec_op_times(chain@));
    }

    let quantity = order.quantity();
    let due_date = order.due_date();
    let order_id = order.id();
    let ghost ops = spec_op_times(chain@);
    let mut blueprints: Vec<ItemBlueprint> = Vec::new();
    let mut init_day: i32 = due_date - 1;
    let mut u: i32 = 0;
    while u < quantity
        invariant
            0 <= u <= quantity,
            blueprints@.len() == u,
            chain@.len() > 0,
            order.status == OrderStatus::Pending,
            quantity == order.quantity,
            due_date == order.due_date,
            order_id == order.id,
            piece == order.piece.spec_as_piece_kind(),
            ops == spec_op_times(chain@),
            op_times@ == ops,
            op_times@.len() == chain@.len(),
            spec_full_recipe(catalog@, piece, MAX_RECIPE_DEPTH as nat) == Some(chain@),
            forall|k: int| 0 <= k < op_times@.len() ==> 0 <= #[trigger] op_times@[k] <= TIME_IN_DAY,
            spec_unit_days(ops, due_date as int, current_day as int, u as nat)
                == spec_backward_days(ops, init_day as int, 0, current_day as int),
            forall|v: int|
                0 <= v < u ==> unit_ok(
                    piece,
                    order_id,
                    chain@,
                    due_date as int,
                    current_day as int,
                    #[trigger] blueprints@[v],
                    v as nat,
                ),
        decreases quantity - u,
    {
        let days = match backward_schedule_from(&op_times, init_day, current_day) {
            Ok(d) => d,
            Err(_) => {
                proof {
                    assert(spec_unit_days(ops, due_date as int, current_day as int, u as nat)
                        is None);
                }
                return Err(PlanError::InfeasibleDate);
            },
        };
        proof {
            lemma_backward_days_bounds(ops, init_day as int, 0, current_day as int, days@);
        }
        let item = Item::new(piece).set_order(Some(order_id));
        let process = build_process(&item, &chain, &days);
        let last_day = days[days.len() - 1];
        let ghost u0 = u as nat;
        blueprints.push(ItemBlueprint { item, process });
        init_day = last_day;
        u += 1;
        proof {
            assert(days@.last() == last_day);
            assert(spec_unit_days(ops, due_date as int, current_day as int, (u0 + 1) as nat)
                == spec_backward_days(ops, last_day as int, 0, current_day as int));
        }
    }
    Ok(NewOrderOutcome::Planned(OrderPlan { blueprints, delivery_day: due_date, pacing }))
}

} // verus!
