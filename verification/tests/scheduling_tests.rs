use infi_erp::items::ItemStatus;
use infi_erp::orders::{Order, OrderStatus};
use infi_erp::pieces::{FinalPiece, PieceKind};
use infi_erp::recipes::{best_recipe, get_full_recipe, Recipe, ToolType};
use infi_erp::scheduling::{
    backward_schedule_from, compute_pacing, plan_new_order, NewOrderOutcome, PlanError,
    ScheduleError,
};

fn recipe(id: i64, material: PieceKind, product: PieceKind, time: i64) -> Recipe {
    Recipe { id, material_kind: material, product_kind: product, tool: ToolType::T1, operation_time: time }
}

// One path P5 <- P3 <- P1.
fn simple_catalog(t1: i64, t2: i64) -> Vec<Recipe> {
    vec![
        recipe(1, PieceKind::P3, PieceKind::P5, t1),
        recipe(2, PieceKind::P1, PieceKind::P3, t2),
    ]
}

#[test]
fn full_recipe_follows_the_single_path() {
    let catalog = simple_catalog(10, 20);
    let chain = get_full_recipe(&catalog, PieceKind::P5).unwrap();
    assert_eq!(chain.len(), 2);
    assert_eq!(chain[0].id, 1);
    assert_eq!(chain[1].id, 2);
    assert_eq!(chain[1].material_kind, PieceKind::P1);
}

#[test]
fn full_recipe_is_empty_without_recipes() {
    let catalog = simple_catalog(10, 20);
    let chain = get_full_recipe(&catalog, PieceKind::P6).unwrap();
    assert!(chain.is_empty());
}

#[test]
fn full_recipe_detects_a_catalog_loop() {
    let catalog = vec![
        recipe(1, PieceKind::P4, PieceKind::P3, 10),
        recipe(2, PieceKind::P3, PieceKind::P4, 10),
        recipe(3, PieceKind::P3, PieceKind::P5, 10),
    ];
    assert!(get_full_recipe(&catalog, PieceKind::P5).is_err());
}

#[test]
fn best_recipe_prefers_the_fastest_then_the_lowest_id() {
    let catalog = vec![
        recipe(5, PieceKind::P1, PieceKind::P3, 30),
        recipe(3, PieceKind::P2, PieceKind::P3, 20),
        recipe(9, PieceKind::P1, PieceKind::P3, 20),
    ];
    let best = best_recipe(&catalog, PieceKind::P3).unwrap();
    assert_eq!(best.id, 3);
    assert!(best_recipe(&catalog, PieceKind::P9).is_none());
}

// Simple single-unit order: both steps fit in one day, dated {4, 4}.
#[test]
fn single_unit_schedules_both_steps_on_day_four() {
    let op_times: Vec<i64> = vec![10, 20];
    let days = backward_schedule_from(&op_times, 4, 0).unwrap();
    assert_eq!(days, vec![4, 4]);
}

// Capacity overflow: 40 + 40 does not fit one day, dates split {4, 3}.
#[test]
fn capacity_overflow_splits_the_days() {
    let op_times: Vec<i64> = vec![40, 40];
    let days = backward_schedule_from(&op_times, 4, 0).unwrap();
    assert_eq!(days, vec![4, 3]);
}

// Infeasible due date: no day at or after current + 1 remains.
#[test]
fn infeasible_due_date_fails_the_walk() {
    let op_times: Vec<i64> = vec![40, 40];
    let err = backward_schedule_from(&op_times, 0, 0).unwrap_err();
    assert_eq!(err, ScheduleError::InfeasibleDate);
}

// With one free day, scheduling succeeds exactly when the work fits the
// day's budget of sixty seconds.
#[test]
fn one_free_day_boundary() {
    let fits: Vec<i64> = vec![30, 30];
    assert!(backward_schedule_from(&fits, 1, 0).is_ok());
    let too_much: Vec<i64> = vec![30, 31];
    assert!(backward_schedule_from(&too_much, 1, 0).is_err());
}

#[test]
fn pacing_of_a_large_order() {
    // 30 seconds per unit, 25% logistics -> 37 per unit; 18 units -> 666;
    // 666 / (60 * 3) = 3 days needed.
    let pacing = compute_pacing(30, 18, 10, 0, 3, 25);
    assert_eq!(pacing.days_needed, 3);
    assert!(!pacing.late);
    assert_eq!(pacing.starting_date, 6);
}

#[test]
fn pacing_flags_a_late_order() {
    let pacing = compute_pacing(60, 30, 2, 0, 3, 25);
    assert!(pacing.late);
    assert_eq!(pacing.starting_date, 1);
}

fn order_of(piece: FinalPiece, quantity: i32, due_date: i32) -> Order {
    Order::new(11, 1, piece, quantity, due_date, 0, 0)
}

#[test]
fn plan_schedules_a_simple_order() {
    let catalog = simple_catalog(10, 20);
    let order = order_of(FinalPiece::P5, 1, 5);
    let outcome = plan_new_order(&order, &catalog, 0).unwrap();
    let plan = match outcome {
        NewOrderOutcome::Planned(p) => p,
        NewOrderOutcome::AlreadyHandled => panic!("order was pending"),
    };
    assert_eq!(plan.delivery_day, 5);
    assert_eq!(plan.blueprints.len(), 1);
    let bp = &plan.blueprints[0];
    assert_eq!(bp.item.piece_kind, PieceKind::P5);
    assert_eq!(bp.item.order_id, Some(order.id()));
    assert_eq!(bp.item.status, ItemStatus::Pending);
    assert_eq!(bp.process.len(), 2);
    // Transformation kinds match the recipes, and the chain hangs together.
    assert_eq!(bp.process[0].recipe.id, 1);
    assert_eq!(bp.process[0].material.piece_kind, PieceKind::P3);
    assert_eq!(bp.process[0].transf.product_id, bp.item.id);
    assert_eq!(bp.process[0].transf.material_id, bp.process[0].material.id);
    assert_eq!(bp.process[1].material.piece_kind, PieceKind::P1);
    assert_eq!(bp.process[1].transf.product_id, bp.process[0].material.id);
    // Both steps fit on the day before the due date.
    assert_eq!(bp.process[0].transf.date, Some(4));
    assert_eq!(bp.process[1].transf.date, Some(4));
}

#[test]
fn plan_splits_days_on_capacity_overflow() {
    let catalog = simple_catalog(40, 40);
    let order = order_of(FinalPiece::P5, 1, 5);
    let outcome = plan_new_order(&order, &catalog, 0).unwrap();
    let plan = match outcome {
        NewOrderOutcome::Planned(p) => p,
        NewOrderOutcome::AlreadyHandled => panic!("order was pending"),
    };
    let bp = &plan.blueprints[0];
    assert_eq!(bp.process[0].transf.date, Some(4));
    assert_eq!(bp.process[1].transf.date, Some(3));
}

#[test]
fn plan_aborts_an_infeasible_due_date() {
    let catalog = simple_catalog(40, 40);
    let order = order_of(FinalPiece::P5, 1, 1);
    let err = plan_new_order(&order, &catalog, 0).unwrap_err();
    assert_eq!(err, PlanError::InfeasibleDate);
    // Nothing was committed: the order value is untouched and pending.
    assert_eq!(order.status(), OrderStatus::Pending);
}

#[test]
fn plan_serializes_later_units_from_the_previous_start() {
    let catalog = simple_catalog(40, 40);
    let order = order_of(FinalPiece::P5, 2, 9);
    let outcome = plan_new_order(&order, &catalog, 0).unwrap();
    let plan = match outcome {
        NewOrderOutcome::Planned(p) => p,
        NewOrderOutcome::AlreadyHandled => panic!("order was pending"),
    };
    assert_eq!(plan.blueprints.len(), 2);
    // Unit one walks back from day 8: steps on 8 and 7; unit two starts
    // its walk at 7: steps on 7 and 6.
    assert_eq!(plan.blueprints[0].process[0].transf.date, Some(8));
    assert_eq!(plan.blueprints[0].process[1].transf.date, Some(7));
    assert_eq!(plan.blueprints[1].process[0].transf.date, Some(7));
    assert_eq!(plan.blueprints[1].process[1].transf.date, Some(6));
}

// Re-delivering the notification of an order no longer pending changes
// nothing.
#[test]
fn replayed_notification_is_a_no_op() {
    let catalog = simple_catalog(10, 20);
    let order = order_of(FinalPiece::P5, 1, 5).schedule(5);
    let outcome = plan_new_order(&order, &catalog, 0).unwrap();
    assert!(matches!(outcome, NewOrderOutcome::AlreadyHandled));
}

#[test]
fn plan_rejects_an_empty_recipe() {
    let catalog = simple_catalog(10, 20);
    let order = order_of(FinalPiece::P6, 1, 5);
    let err = plan_new_order(&order, &catalog, 0).unwrap_err();
    assert_eq!(err, PlanError::RecipeExhaustion);
}
