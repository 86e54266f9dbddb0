//! Estimating: samples go in, a [`ClockModel`](crate::model::ClockModel) comes out.
//!
//! Every sample is a band in the plane of offset and drift rate; the bands of the sliding
//! window intersect in a convex polygon, whose extremes bound both. Where the intersection
//! is empty, the samples that disagree most are set aside one by one until it is not.

pub mod interval;
