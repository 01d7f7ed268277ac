//! Wire formats: CRC, service selectors, GDP, GCTL and GTS.

pub mod bytes;
pub mod crc;
pub mod css;
pub mod gctl;
pub mod gctl_routing;
pub mod gdp;
pub mod gts;
