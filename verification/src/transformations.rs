//! Transformations: one recipe applied to two concrete items, scheduled on a
//! simulated day and completed by the factory floor.

use vstd::prelude::*;

use crate::items::{Item, ItemStatus, TransitionError};
use crate::money::Money;
use crate::pieces::PieceKind;
use crate::recipes::ToolType;

verus! {

/// A transformation is pending until the factory reports it done.
#[derive(Clone, Copy, Debug, PartialEq, Eq, Structural)]
pub enum TransformationStatus {
    Pending,
    Completed,
}

/// One scheduled application of a recipe, turning a material item into a
/// product item.
#[derive(Debug)]
pub struct Transformation {
    pub id: Option<i64>,
    pub material_id: u128,
    pub product_id: u128,
    pub recipe_id: i64,
    pub date: Option<i32>,
    pub status: TransformationStatus,
    pub line: Option<String>,
    pub machine: Option<String>,
    pub time_taken: Option<i64>,
}

impl Transformation {
    /// A fresh pending transformation binding two items under a recipe,
    /// with no date yet.
    pub fn new(product_id: u128, material_id: u128, recipe_id: i64) -> (r: Transformation)
        ensures
            r.id is None,
            r.material_id == material_id,
            r.product_id == product_id,
            r.recipe_id == recipe_id,
            r.date is None,
            r.status == TransformationStatus::Pending,
            r.line is None,
            r.machine is None,
            r.time_taken is None,
    {
        Transformation {
            id: None,
            material_id,
            product_id,
            recipe_id,
            date: None,
            status: TransformationStatus::Pending,
            line: None,
            machine: None,
            time_taken: None,
        }
    }

    /// Gives the transformation its tentative scheduled day.
    pub fn set_date(&mut self, date: i32)
        ensures
            *final(self) == (Transformation { date: Some(date), ..*old(self) }),
    {
        self.date = Some(date);
    }

    /// The transformation as the factory reports it done.
    pub open spec fn spec_complete(
        self,
        completion_date: i32,
        line: String,
        machine: String,
        time_taken: i64,
    ) -> Transformation {
        Transformation {
            status: TransformationStatus::Completed,
            date: Some(completion_date),
            line: Some(line),
            machine: Some(machine),
            time_taken: Some(time_taken),
            ..self
        }
    }

    /// Records the completion: the actual date, line, machine and time taken.
    pub fn complete(
        self,
        completion_date: i32,
        line: String,
        machine: String,
        time_taken: i64,
    ) -> (r: Transformation)
        ensures
            r == self.spec_complete(completion_date, line, machine, time_taken),
    {
        Transformation {
            status: TransformationStatus::Completed,
            date: Some(completion_date),
            line: Some(line),
            machine: Some(machine),
            time_taken: Some(time_taken),
            ..self
        }
    }

    /// The material item's identifier.
    pub fn material_id(&self) -> (r: u128)
        ensures
            r == self.material_id,
    {
        self.material_id
    }

    /// The product item's identifier.
    pub fn product_id(&self) -> (r: u128)
        ensures
            r == self.product_id,
    {
        self.product_id
    }
}

/// A pending transformation joined with its recipe, as handed to the
/// factory floor.
#[derive(Debug)]
pub struct TransformationDetails {
    pub transformation_id: i64,
    pub material_id: u128,
    pub product_id: u128,
    pub material_kind: PieceKind,
    pub product_kind: PieceKind,
    pub tool: ToolType,
    pub operation_time: i64,
}

/// A completion report from the factory floor.
#[derive(Debug)]
pub struct CompletionRequest {
    pub transf_id: i64,
    pub material_id: u128,
    pub product_id: u128,
    pub line_id: String,
    pub time_taken: i64,
}

/// Why a completion report was refused.
#[derive(Clone, Copy, Debug, PartialEq, Eq, Structural)]
pub enum CompletionError {
    MaterialMismatch,
    ProductMismatch,
    CostOverflow,
    ProductState(TransitionError),
    MaterialState(TransitionError),
}

/// Everything a completion changes: the consumed material, the produced
/// product, and the completed transformation.
#[derive(Debug)]
pub struct CompletionOutcome {
    pub material: Item,
    pub product: Item,
    pub transformation: Transformation,
}

/// The product's accumulated cost after completion: the material's cost plus
/// one hundred cents for each second taken.
pub open spec fn spec_completion_cost(material: Item, time_taken: i64) -> int {
    material.acc_cost.cents + time_taken * 100
}

/// True when the completion cost arithmetic stays within `i64`.
pub open spec fn completion_cost_fits(material: Item, time_taken: i64) -> bool {
    &&& i64::MIN <= time_taken * 100 <= i64::MAX
    &&& i64::MIN <= spec_completion_cost(material, time_taken) <= i64::MAX
}

/// Applies a completion report: checks that the report names the
/// transformation's own items, consumes the material, and produces the
/// product at the material's cost plus one hundred cents per second taken.
pub fn complete_transformation(
    transf: Transformation,
    material: Item,
    product: Item,
    req: CompletionRequest,
    current_date: i32,
) -> (r: Result<CompletionOutcome, CompletionError>)
    ensures
        transf.material_id != req.material_id ==> r == Err::<CompletionOutcome, CompletionError>(
            CompletionError::MaterialMismatch,
        ),
        transf.material_id == req.material_id && transf.product_id != req.product_id ==> r == Err::<
            CompletionOutcome,
            CompletionError,
        >(CompletionError::ProductMismatch),
        transf.material_id == req.material_id && transf.product_id == req.product_id && !completion_cost_fits(
            material,
            req.time_taken,
        ) ==> r == Err::<CompletionOutcome, CompletionError>(CompletionError::CostOverflow),
        transf.material_id == req.material_id && transf.product_id == req.product_id
            && completion_cost_fits(material, req.time_taken) && product.status
            != ItemStatus::Pending ==> r == Err::<CompletionOutcome, CompletionError>(
            CompletionError::ProductState(TransitionError::NotPending),
        ),
        transf.material_id == req.material_id && transf.product_id == req.product_id
            && completion_cost_fits(material, req.time_taken) && product.status
            == ItemStatus::Pending && material.status != ItemStatus::InTransit ==> r == Err::<
            CompletionOutcome,
            CompletionError,
        >(CompletionError::MaterialState(TransitionError::NotInTransit)),
        transf.material_id == req.material_id && transf.product_id == req.product_id
            && completion_cost_fits(material, req.time_taken) && product.status
            == ItemStatus::Pending && material.status == ItemStatus::InTransit ==> (match r {
            Ok(out) => {
                &&& out.material == material.spec_consume(req.line_id)
                &&& out.product == product.spec_produce(
                    Money { cents: spec_completion_cost(material, req.time_taken) as i64 },
                    req.line_id,
                )
                &&& out.transformation == transf.spec_complete(
                    current_date,
                    req.line_id,
                    req.line_id,
                    req.time_taken,
                )
            },
            Err(_) => false,
        }),
{
    if transf.material_id != req.material_id {
        return Err(CompletionError::MaterialMismatch);
    }
    if transf.product_id != req.product_id {
        return Err(CompletionError::ProductMismatch);
    }
    let extra = match req.time_taken.checked_mul(100) {
        Some(e) => e,
        None => {
            return Err(CompletionError::CostOverflow);
        },
    };
    let cents = match material.get_cost().cents.checked_add(extra) {
        Some(c) => c,
        None => {
            return Err(CompletionError::CostOverflow);
        },
    };
    let new_cost = Money { cents };
    let line = req.line_id;
    let product = match product.produce(new_cost, line.clone()) {
        Ok(p) => p,
        Err(e) => {
            return Err(CompletionError::ProductState(e));
        },
    };
    let material = match material.consume(line.clone()) {
        Ok(m) => m,
        Err(e) => {
            return Err(CompletionError::MaterialState(e));
        },
    };
    let transformation = transf.complete(current_date, line.clone(), line, req.time_taken);
    Ok(CompletionOutcome { material, product, transformation })
}

} // verus!
