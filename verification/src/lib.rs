//! A small library that locates customers whose geographic coordinates fall
//! within a given radius of a reference point.
//!
//! Latitudes, longitudes and distances are IEEE 754 binary64 values; the
//! library holds them as their bit patterns (`u64`) and models their
//! comparison semantics exactly at the bit level.  The trigonometry that
//! produces a distance from two coordinates is floating-point work that the
//! caller performs; every decision taken on such a value (ordering, radius
//! filtering, sorting, rendering) is verified here.

pub mod customer;
pub mod customer_datasource;
pub mod customer_json_file;
pub mod customer_locator;
pub mod ieee754;
pub mod location;
pub mod units;
