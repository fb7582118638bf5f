//! Cluster topology as the coordinator sees it.

use vstd::prelude::*;

verus! {

/// Both ends of a slot migration.
#[derive(Debug)]
pub struct MigrationMeta {
    pub epoch: u64,
    pub src_proxy_address: String,
    pub src_node_address: String,
    pub dst_proxy_address: String,
    pub dst_node_address: String,
}

/// Whether a slot range is at rest, leaving its proxy or arriving at it.
#[derive(Debug)]
pub enum SlotRangeTag {
    Migrating(MigrationMeta),
    Importing(MigrationMeta),
    Stable,
}

impl SlotRangeTag {
    /// The migration a tagged range takes part in.
    pub open spec fn spec_migration_meta(&self) -> Option<&MigrationMeta> {
        match self {
            SlotRangeTag::Migrating(meta) => Some(meta),
            SlotRangeTag::Importing(meta) => Some(meta),
            SlotRangeTag::Stable => None,
        }
    }

    /// The migration a tagged range takes part in; `None` for a range at rest.
    pub fn get_migration_meta(&self) -> (meta: Option<&MigrationMeta>)
        ensures
            meta == self.spec_migration_meta(),
    {
        match self {
            SlotRangeTag::Migrating(meta) => Some(meta),
            SlotRangeTag::Importing(meta) => Some(meta),
            SlotRangeTag::Stable => None,
        }
    }
}

/// A contiguous run of slots, both ends included.
#[derive(Debug)]
pub struct SlotRange {
    pub start: usize,
    pub end: usize,
    pub tag: SlotRangeTag,
}

/// The part a node plays for its slots.
#[derive(Debug)]
pub enum Role {
    Master,
    Replica,
}

/// One storage node behind a proxy.
#[derive(Debug)]
pub struct Node {
    pub address: String,
    pub proxy_address: String,
    pub db_name: String,
    pub slots: Vec<SlotRange>,
    pub role: Role,
}

/// What one proxy has to know about the databases it serves.
#[derive(Debug)]
pub struct Host {
    pub address: String,
    pub epoch: u64,
    pub nodes: Vec<Node>,
}

/// One slot migration that a proxy reports as ready to be committed.
#[derive(Debug)]
pub struct MigrationTaskMeta {
    pub db_name: String,
    pub slot_range: SlotRange,
}

} // verus!
