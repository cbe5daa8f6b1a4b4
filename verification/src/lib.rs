//! Conversion of Minecraft mapping files (Mojang ProGuard, Forge SRG and
//! Fabric Tiny) into the rows of a mappings database.
//!
//! The library holds the parsing rules and the decision logic of the
//! converter; the caller performs the database and file work that the
//! actions returned here describe.
pub mod text;
pub mod json;
pub mod mapping;
pub mod resolvers;
