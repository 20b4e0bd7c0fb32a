use crate::ast::{AssignOperator, LogicalOperator};
use crate::primitive::{BinaryOperator, ComparisonOperator};
use vstd::prelude::*;

verus! {

/// The name of each variant, as `Debug` prints it.
pub open spec fn binary_operator_name(op: BinaryOperator) -> Seq<char> {
    match op {
        BinaryOperator::Addition => "Addition"@,
        BinaryOperator::Subtract => "Subtract"@,
        BinaryOperator::Multiply => "Multiply"@,
        BinaryOperator::Divide => "Divide"@,
        BinaryOperator::Modulo => "Modulo"@,
        BinaryOperator::And => "And"@,
        BinaryOperator::Or => "Or"@,
        BinaryOperator::Xor => "Xor"@,
        BinaryOperator::LeftShift => "LeftShift"@,
        BinaryOperator::RightShift => "RightShift"@,
    }
}

impl BinaryOperator {
    /// The name of the variant, as `Debug` prints it.
    pub fn variant_name(&self) -> (s: &'static str)
        ensures
            s@ == binary_operator_name(*self),
    {
        match self {
            BinaryOperator::Addition => "Addition",
            BinaryOperator::Subtract => "Subtract",
            BinaryOperator::Multiply => "Multiply",
            BinaryOperator::Divide => "Divide",
            BinaryOperator::Modulo => "Modulo",
            BinaryOperator::And => "And",
            BinaryOperator::Or => "Or",
            BinaryOperator::Xor => "Xor",
            BinaryOperator::LeftShift => "LeftShift",
            BinaryOperator::RightShift => "RightShift",
        }
    }
}
/// The name of each variant, as `Debug` prints it.
pub open spec fn comparison_operator_name(op: ComparisonOperator) -> Seq<char> {
    match op {
        ComparisonOperator::Equal => "Equal"@,
        ComparisonOperator::NotEqual => "NotEqual"@,
        ComparisonOperator::LessThan => "LessThan"@,
        ComparisonOperator::LessThanEqual => "LessThanEqual"@,
        ComparisonOperator::GreaterThan => "GreaterThan"@,
        ComparisonOperator::GreaterThanEqual => "GreaterThanEqual"@,
    }
}

impl ComparisonOperator {
    /// The name of the variant, as `Debug` prints it.
    pub fn variant_name(&self) -> (s: &'static str)
        ensures
            s@ == comparison_operator_name(*self),
    {
        match self {
            ComparisonOperator::Equal => "Equal",
            ComparisonOperator::NotEqual => "NotEqual",
            ComparisonOperator::LessThan => "LessThan",
            ComparisonOperator::LessThanEqual => "LessThanEqual",
            ComparisonOperator::GreaterThan => "GreaterThan",
            ComparisonOperator::GreaterThanEqual => "GreaterThanEqual",
        }
    }
}
/// The name of each variant, as `Debug` prints it.
pub open spec fn logical_operator_name(op: LogicalOperator) -> Seq<char> {
    match op {
        LogicalOperator::Not => "Not"@,
        LogicalOperator::And => "And"@,
        LogicalOperator::Or => "Or"@,
    }
}

impl LogicalOperator {
    /// The name of the variant, as `Debug` prints it.
    pub fn variant_name(&self) -> (s: &'static str)
        ensures
            s@ == logical_operator_name(*self),
    {
        match self {
            LogicalOperator::Not => "Not",
            LogicalOperator::And => "And",
            LogicalOperator::Or => "Or",
        }
    }
}
/// The name of each variant, as `Debug` prints it.
pub open spec fn assign_operator_name(op: AssignOperator) -> Seq<char> {
    match op {
        AssignOperator::Assign => "Assign"@,
        AssignOperator::AddAssign => "AddAssign"@,
        AssignOperator::SubAssign => "SubAssign"@,
        AssignOperator::MulAssign => "MulAssign"@,
        AssignOperator::DivAssign => "DivAssign"@,
        AssignOperator::ModAssign => "ModAssign"@,
        AssignOperator::AndAssign => "AndAssign"@,
        AssignOperator::OrAssign => "OrAssign"@,
        AssignOperator::XorAssign => "XorAssign"@,
        AssignOperator::LeftShiftAssign => "LeftShiftAssign"@,
        AssignOperator::RightShiftAssign => "RightShiftAssign"@,
    }
}

impl AssignOperator {
    /// The name of the variant, as `Debug` prints it.
    pub fn variant_name(&self) -> (s: &'static str)
        ensures
            s@ == assign_operator_name(*self),
    {
        match self {
            AssignOperator::Assign => "Assign",
            AssignOperator::AddAssign => "AddAssign",
            AssignOperator::SubAssign => "SubAssign",
            AssignOperator::MulAssign => "MulAssign",
            AssignOperator::DivAssign => "DivAssign",
            AssignOperator::ModAssign => "ModAssign",
            AssignOperator::AndAssign => "AndAssign",
            AssignOperator::OrAssign => "OrAssign",
            AssignOperator::XorAssign => "XorAssign",
            AssignOperator::LeftShiftAssign => "LeftShiftAssign",
            AssignOperator::RightShiftAssign => "RightShiftAssign",
        }
    }
}
} // verus!
