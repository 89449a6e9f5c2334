//! The data of a scheduling problem: item categories and their members,
//! schedules, and the constraint language.

pub mod constraint;
pub mod item;
pub mod schedule;

pub use constraint::{
    ComparisonOperator, Condition, ConditionView, Constraint, ConstraintMode, ConstraintRule,
    ConstraintRuleView, ConstraintView, LogicalOperator,
};
pub use item::{
    FieldSchema, FieldSchemaView, FieldType, Item, ItemId, ItemView, Member, MemberView,
    ProblemData, ProblemView, Schema, SetType, Value, ValueView,
};
pub use schedule::{Assignment, AssignmentView, Schedule};
