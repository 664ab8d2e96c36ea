//! Inventory of the NuGet packages that a tree of .NET projects declares,
//! resolved against the registry's catalog.

pub mod cli;
pub mod text;
pub mod declarations;
pub mod registry;
pub mod pipeline;
pub mod report;
