//! Storage core of an entity-component database: an entity id allocator,
//! a sparse-set container that maps entity ids to densely packed values,
//! and a table that keeps a collection of such containers behind
//! independent reader/writer locks.

pub mod component;
pub mod entity;
pub mod table;
