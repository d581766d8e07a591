//! Text fields bound to numeric settings. When the user confirms an entry
//! that reads as a number, the setting takes it; otherwise the field falls
//! back to showing the setting's current value.

use vstd::prelude::*;
use crate::decimal::{
    decimal, decimal_i32, decimal_usize, format_i32, format_usize, lemma_i32_round_trip,
    lemma_usize_round_trip, parse_i32, parse_usize, signed_decimal,
};

verus! {

/// Reads `label` as a `usize`. When it holds one, that number is returned and
/// the label is kept; otherwise the label is rewritten to show `current` and
/// nothing is returned. Either way the label afterwards reads as the value in
/// force.
pub fn validate_usize_label(label: &mut String, current: usize) -> (parsed: Option<usize>)
    ensures
        parsed == decimal_usize(old(label)@),
        parsed is Some ==> final(label)@ == old(label)@,
        parsed is None ==> final(label)@ == decimal(current as nat),
        decimal_usize(final(label)@) == Some(
            match parsed {
                Some(v) => v,
                None => current,
            },
        ),
{
    match parse_usize(label.as_str()) {
        Some(num) => Some(num),
        None => {
            *label = format_usize(current);
            proof {
                lemma_usize_round_trip(current);
            }
            None
        },
    }
}

/// Reads `label` as an `i32`, as `validate_usize_label` does for `usize`.
pub fn validate_i32_label(label: &mut String, current: i32) -> (parsed: Option<i32>)
    ensures
        parsed == decimal_i32(old(label)@),
        parsed is Some ==> final(label)@ == old(label)@,
        parsed is None ==> final(label)@ == signed_decimal(current as int),
        decimal_i32(final(label)@) == Some(
            match parsed {
                Some(v) => v,
                None => current,
            },
        ),
{
    match parse_i32(label.as_str()) {
        Some(num) => Some(num),
        None => {
            *label = format_i32(current);
            proof {
                lemma_i32_round_trip(current);
            }
            None
        },
    }
}

#[allow(non_snake_case)]
pub trait Label {
    fn LabelName(&self) -> String;

    fn LabelValue(&self) -> String;

    /// Validates the user inputted value. If it's fine,
    /// updates the settings.
    fn ValidateLabelValue(&mut self);
}

pub struct ImageHeight {
    pub label_name: String,
    pub label_value: String,
    pub height: usize,
}

pub struct ImageWidth {
    pub label_name: String,
    pub label_value: String,
    pub width: usize,
}

pub struct CameraSpeed {
    pub label_name: String,
    pub label_value: String,
    pub speed: usize,
}

pub struct SamplesPerPixel {
    pub label_name: String,
    pub label_value: String,
    pub samples: i32,
}

#[allow(non_snake_case)]
impl Label for ImageHeight {
    fn LabelName(&self) -> (name: String)
        ensures
            name@ == self.label_name@,
    {
        self.label_name.clone()
    }

    fn LabelValue(&self) -> (value: String)
        ensures
            value@ == self.label_value@,
    {
        self.label_value.clone()
    }

    fn ValidateLabelValue(&mut self)
        ensures
            final(self).label_name@ == old(self).label_name@,
            match decimal_usize(old(self).label_value@) {
                Some(v) => final(self).height == v && final(self).label_value@ == old(
                    self,
                ).label_value@,
                None => final(self).height == old(self).height && final(self).label_value@
                    == decimal(old(self).height as nat),
            },
            decimal_usize(final(self).label_value@) == Some(final(self).height),
    {
        match validate_usize_label(&mut self.label_value, self.height) {
            Some(num) => {
                self.height = num;
            },
            None => {},
        }
    }
}

#[allow(non_snake_case)]
impl Label for ImageWidth {
    fn LabelName(&self) -> (name: String)
        ensures
            name@ == self.label_name@,
    {
        self.label_name.clone()
    }

    fn LabelValue(&self) -> (value: String)
        ensures
            value@ == self.label_value@,
    {
        self.label_value.clone()
    }

    fn ValidateLabelValue(&mut self)
        ensures
            final(self).label_name@ == old(self).label_name@,
            match decimal_usize(old(self).label_value@) {
                Some(v) => final(self).width == v && final(self).label_value@ == old(
                    self,
                ).label_value@,
                None => final(self).width == old(self).width && final(self).label_value@
                    == decimal(old(self).width as nat),
            },
            decimal_usize(final(self).label_value@) == Some(final(self).width),
    {
        match validate_usize_label(&mut self.label_value, self.width) {
            Some(num) => {
                self.width = num;
            },
            None => {},
        }
    }
}

#[allow(non_snake_case)]
impl Label for CameraSpeed {
    fn LabelName(&self) -> (name: String)
        ensures
            name@ == self.label_name@,
    {
        self.label_name.clone()
    }

    fn LabelValue(&self) -> (value: String)
        ensures
            value@ == self.label_value@,
    {
        self.label_value.clone()
    }

    fn ValidateLabelValue(&mut self)
        ensures
            final(self).label_name@ == old(self).label_name@,
            match decimal_usize(old(self).label_value@) {
                Some(v) => final(self).speed == v && final(self).label_value@ == old(
                    self,
                ).label_value@,
                None => final(self).speed == old(self).speed && final(self).label_value@
                    == decimal(old(self).speed as nat),
            },
            decimal_usize(final(self).label_value@) == Some(final(self).speed),
    {
        match validate_usize_label(&mut self.label_value, self.speed) {
            Some(num) => {
                self.speed = num;
            },
            None => {},
        }
    }
}

#[allow(non_snake_case)]
impl Label for SamplesPerPixel {
    fn LabelName(&self) -> (name: String)
        ensures
            name@ == self.label_name@,
    {
        self.label_name.clone()
    }

    fn LabelValue(&self) -> (value: String)
        ensures
            value@ == self.label_value@,
    {
        self.label_value.clone()
    }

    fn ValidateLabelValue(&mut self)
        ensures
            final(self).label_name@ == old(self).label_name@,
            match decimal_i32(old(self).label_value@) {
                Some(v) => final(self).samples == v && final(self).label_value@ == old(
                    self,
                ).label_value@,
                None => final(self).samples == old(self).samples && final(self).label_value@
                    == signed_decimal(old(self).samples as int),
            },
            decimal_i32(final(self).label_value@) == Some(final(self).samples),
    {
        match validate_i32_label(&mut self.label_value, self.samples) {
            Some(num) => {
                self.samples = num;
            },
            None => {},
        }
    }
}

} // verus!
