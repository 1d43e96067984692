//! Reconnaissance planning for a survey drone over a procedurally generated
//! coast map: the map itself, its division into quadrants, the classification
//! of each quadrant as land or water, and the decisions the drone takes while
//! it surveys the quadrants and then flies to the water ones.

pub mod flight;
pub mod mission;
