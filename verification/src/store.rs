//! The limits that Wasmtime holds a guest store to.

use vstd::prelude::*;

use wasmtime::{StoreLimits, StoreLimitsBuilder};

use crate::runtime::StorePlan;

verus! {

/// The limits of a store.
#[verifier::external_type_specification]
#[verifier::external_body]
pub struct ExStoreLimits(wasmtime::StoreLimits);

/// The builder of the limits of a store.
#[verifier::external_type_specification]
#[verifier::external_body]
pub struct ExStoreLimitsBuilder(wasmtime::StoreLimitsBuilder);

/// What the limits of a store hold.
pub struct StoreLimitsView {
    /// Bytes that each linear memory can grow to, if limited.
    pub memory_size: Option<usize>,
    /// Elements that each table can grow to, if limited.
    pub table_elements: Option<usize>,
    /// How many instances there can be.
    pub instances: usize,
    /// How many tables there can be.
    pub tables: usize,
    /// How many linear memories there can be.
    pub memories: usize,
    /// Whether a failed growth traps.
    pub trap_on_grow_failure: bool,
}

impl StoreLimitsView {
    /// What fresh limits hold.
    pub open spec fn fresh() -> StoreLimitsView {
        StoreLimitsView {
            memory_size: None,
            table_elements: None,
            instances: 10_000,
            tables: 10_000,
            memories: 10_000,
            trap_on_grow_failure: false,
        }
    }
}

pub uninterp spec fn limits_in(builder: StoreLimitsBuilder) -> StoreLimitsView;

pub uninterp spec fn limits_of(limits: StoreLimits) -> StoreLimitsView;

/// [`StoreLimitsBuilder::new`]: trusted to start from the documented defaults.
pub assume_specification[ StoreLimitsBuilder::new ]() -> (builder: StoreLimitsBuilder)
    ensures
        limits_in(builder) == StoreLimitsView::fresh(),
;

/// [`StoreLimitsBuilder::memory_size`]: trusted to set that limit and nothing else.
pub assume_specification[ StoreLimitsBuilder::memory_size ](
    builder: StoreLimitsBuilder,
    limit: usize,
) -> (next: StoreLimitsBuilder)
    ensures
        limits_in(next) == (StoreLimitsView { memory_size: Some(limit), ..limits_in(builder) }),
;

/// [`StoreLimitsBuilder::instances`]: trusted to set that limit and nothing else.
pub assume_specification[ StoreLimitsBuilder::instances ](
    builder: StoreLimitsBuilder,
    limit: usize,
) -> (next: StoreLimitsBuilder)
    ensures
        limits_in(next) == (StoreLimitsView { instances: limit, ..limits_in(builder) }),
;

/// [`StoreLimitsBuilder::tables`]: trusted to set that limit and nothing else.
pub assume_specification[ StoreLimitsBuilder::tables ](
    builder: StoreLimitsBuilder,
    tables: usize,
) -> (next: StoreLimitsBuilder)
    ensures
        limits_in(next) == (StoreLimitsView { tables, ..limits_in(builder) }),
;

/// [`StoreLimitsBuilder::memories`]: trusted to set that limit and nothing else.
pub assume_specification[ StoreLimitsBuilder::memories ](
    builder: StoreLimitsBuilder,
    memories: usize,
) -> (next: StoreLimitsBuilder)
    ensures
        limits_in(next) == (StoreLimitsView { memories, ..limits_in(builder) }),
;

/// [`StoreLimitsBuilder::build`]: trusted to hand out the limits as they were set.
pub assume_specification[ StoreLimitsBuilder::build ](builder: StoreLimitsBuilder) -> (limits:
    StoreLimits)
    ensures
        limits_of(limits) == limits_in(builder),
;

impl StorePlan {
    /// The limits that the store of this plan is held to.
    pub fn store_limits(&self) -> (limits: StoreLimits)
        ensures
            limits_of(limits) == (StoreLimitsView {
                memory_size: Some(self.memory_bytes),
                instances: self.instances,
                tables: self.tables,
                memories: self.memories,
                ..StoreLimitsView::fresh()
            }),
    {
        StoreLimitsBuilder::new().memory_size(self.memory_bytes).instances(self.instances).tables(
            self.tables,
        ).memories(self.memories).build()
    }
}

} // verus!
