//! The three stations of a deployment: where each stands, how it is
//! labelled, and how its readings become distances.

use crate::distance::{distance_model, Calibration};
use crate::error::EstimateError;
use crate::fixed::{in_range, Fixed};
use crate::frame::Point;
use crate::pipeline::{Configuration, ConfigurationModel};
use crate::solver::SolverPolicy;
use vstd::prelude::*;

verus! {

/// The place of a station among the three. The distances `r1`, `r2` and
/// `r3` of an estimate belong to the first, second and third station.
#[derive(Clone, Copy, Debug, PartialEq, Eq, Structural)]
pub enum Slot {
    First,
    Second,
    Third,
}

/// A fixed station.
#[derive(Debug)]
pub struct Station {
    pub label: String,
    pub position: Point,
    pub calibration: Calibration,
}

/// The three stations of a deployment.
#[derive(Debug)]
pub struct Deployment {
    pub first: Station,
    pub second: Station,
    pub third: Station,
}

/// The distance of a reading, or the error of the estimator.
pub open spec fn distance_result_model(rssi: int, calibration: (int, int)) -> Result<
    int,
    EstimateError,
> {
    let d = distance_model(rssi, calibration.0, calibration.1);
    if in_range(d) {
        Ok(d)
    } else {
        Err(EstimateError::OutOfRange)
    }
}

/// The view of a result that holds a number.
pub open spec fn fixed_view(r: Result<Fixed, EstimateError>) -> Result<int, EstimateError> {
    match r {
        Ok(v) => Ok(v@),
        Err(e) => Err(e),
    }
}

impl Deployment {
    /// The slot of the first station that carries `label`.
    pub open spec fn slot_for(&self, label: Seq<char>) -> Option<Slot> {
        if self.first.label@ == label {
            Some(Slot::First)
        } else if self.second.label@ == label {
            Some(Slot::Second)
        } else if self.third.label@ == label {
            Some(Slot::Third)
        } else {
            None
        }
    }

    /// The station in `slot`.
    pub open spec fn at(&self, slot: Slot) -> Station {
        match slot {
            Slot::First => self.first,
            Slot::Second => self.second,
            Slot::Third => self.third,
        }
    }

    /// The slot of the station labelled `label`, if there is one.
    pub fn slot_of(&self, label: &str) -> (r: Option<Slot>)
        ensures
            r == self.slot_for(label@),
    {
        let wanted = label.to_owned();
        if self.first.label == wanted {
            Some(Slot::First)
        } else if self.second.label == wanted {
            Some(Slot::Second)
        } else if self.third.label == wanted {
            Some(Slot::Third)
        } else {
            None
        }
    }

    /// The station in `slot`.
    pub fn station(&self, slot: Slot) -> (r: &Station)
        ensures
            *r == self.at(slot),
    {
        match slot {
            Slot::First => &self.first,
            Slot::Second => &self.second,
            Slot::Third => &self.third,
        }
    }

    /// The distance that the station labelled `label` gives to the reading
    /// `rssi`, with the station's slot; `None` for a label that no station
    /// carries.
    pub fn reading_distance(&self, label: &str, rssi: Fixed) -> (r: Option<
        (Slot, Result<Fixed, EstimateError>),
    >)
        ensures
            match self.slot_for(label@) {
                None => r is None,
                Some(slot) => r matches Some((s, d)) && s == slot && fixed_view(d)
                    == distance_result_model(rssi@, self.at(slot).calibration@),
            },
    {
        match self.slot_of(label) {
            None => None,
            Some(slot) => Some((slot, self.station(slot).calibration.distance(rssi))),
        }
    }

    /// The configuration of the pipeline for these stations and a policy.
    pub fn configuration(&self, policy: SolverPolicy) -> (r: Configuration)
        ensures
            r@ == (ConfigurationModel {
                first: self.first.position@,
                second: self.second.position@,
                third: self.third.position@,
                policy: policy@,
            }),
    {
        Configuration {
            first: self.first.position,
            second: self.second.position,
            third: self.third.position,
            policy,
        }
    }
}

} // verus!
