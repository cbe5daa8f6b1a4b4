//! Readers of the three mapping formats. Proguard is the format of the
//! vanilla mappings that Mojang publishes since 1.14.4, Tiny that of Fabric,
//! and SRG/TSRG that of Forge.
pub mod proguard;
pub mod srg;
pub mod tiny;
