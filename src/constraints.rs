use vstd::prelude::*;
use crate::error::{ConstraintViolation, Error, ErrorV};
use crate::float::FloatBits;
use crate::json::{Json, JsonV, bool_of, float_of, str_of, uint_of};
use crate::types::{Constraints, ConstraintsV};

verus! {

/// The first contradiction among a field's bounds, checked in a fixed order.
pub open spec fn constraint_violation(c: ConstraintsV) -> Option<ConstraintViolation> {
    if c.minimum is Some && c.maximum is Some && c.maximum->0.lt_spec(c.minimum->0) {
        Some(ConstraintViolation::MinimumAboveMaximum)
    } else if c.exclusive_minimum is Some && c.exclusive_maximum is Some
        && c.exclusive_maximum->0.le_spec(c.exclusive_minimum->0) {
        Some(ConstraintViolation::EmptyExclusiveRange)
    } else if c.minimum is Some && c.exclusive_maximum is Some
        && c.exclusive_maximum->0.le_spec(c.minimum->0) {
        Some(ConstraintViolation::MinimumReachesExclusiveMaximum)
    } else if c.exclusive_minimum is Some && c.maximum is Some
        && c.maximum->0.le_spec(c.exclusive_minimum->0) {
        Some(ConstraintViolation::ExclusiveMinimumReachesMaximum)
    } else if c.min_length is Some && c.max_length is Some && c.min_length->0 > c.max_length->0 {
        Some(ConstraintViolation::LengthRange)
    } else if c.min_items is Some && c.max_items is Some && c.min_items->0 > c.max_items->0 {
        Some(ConstraintViolation::ItemsRange)
    } else if c.multiple_of is Some && c.multiple_of->0.non_positive() {
        Some(ConstraintViolation::NonPositiveMultiple)
    } else {
        None
    }
}

impl Constraints {
    /// Checks that the bounds are consistent with one another.
    pub fn validate(&self) -> (r: Result<(), Error>)
        ensures
            constraint_violation(self@) is None ==> r is Ok,
            constraint_violation(self@) matches Some(v) ==> (r matches Err(e) && e@ == ErrorV::InvalidConstraint(v)),
    {
        if let (Some(min), Some(max)) = (&self.minimum, &self.maximum) {
            if max.lt(min) {
                return Err(Error::InvalidConstraint(ConstraintViolation::MinimumAboveMaximum));
            }
        }
        if let (Some(min), Some(max)) = (&self.exclusive_minimum, &self.exclusive_maximum) {
            if max.le(min) {
                return Err(Error::InvalidConstraint(ConstraintViolation::EmptyExclusiveRange));
            }
        }
        if let (Some(min), Some(ex_max)) = (&self.minimum, &self.exclusive_maximum) {
            if ex_max.le(min) {
                return Err(Error::InvalidConstraint(ConstraintViolation::MinimumReachesExclusiveMaximum));
            }
        }
        if let (Some(ex_min), Some(max)) = (&self.exclusive_minimum, &self.maximum) {
            if max.le(ex_min) {
                return Err(Error::InvalidConstraint(ConstraintViolation::ExclusiveMinimumReachesMaximum));
            }
        }
        if let (Some(min_len), Some(max_len)) = (self.min_length, self.max_length) {
            if min_len > max_len {
                return Err(Error::InvalidConstraint(ConstraintViolation::LengthRange));
            }
        }
        if let (Some(min_items), Some(max_items)) = (self.min_items, self.max_items) {
            if min_items > max_items {
                return Err(Error::InvalidConstraint(ConstraintViolation::ItemsRange));
            }
        }
        if let Some(multiple) = &self.multiple_of {
            if multiple.is_non_positive() {
                return Err(Error::InvalidConstraint(ConstraintViolation::NonPositiveMultiple));
            }
        }
        Ok(())
    }
}

/// The lower bound a schema states, as `(minimum, exclusive_minimum)`: a
/// numeric `exclusiveMinimum` wins; otherwise `minimum`, made exclusive by a
/// boolean `exclusiveMinimum: true`.
pub open spec fn lower_bound(o: JsonV) -> (Option<FloatBits>, Option<FloatBits>) {
    bound_pair(o, "exclusiveMinimum"@, "minimum"@)
}

pub open spec fn upper_bound(o: JsonV) -> (Option<FloatBits>, Option<FloatBits>) {
    bound_pair(o, "exclusiveMaximum"@, "maximum"@)
}

/// `(inclusive, exclusive)` read from the keys `exclusive_key` and `key`.
pub open spec fn bound_pair(o: JsonV, exclusive_key: Seq<char>, key: Seq<char>) -> (Option<FloatBits>, Option<FloatBits>) {
    if float_of(o.member(exclusive_key)) is Some {
        (None, float_of(o.member(exclusive_key)))
    } else if float_of(o.member(key)) is Some {
        if bool_of(o.member(exclusive_key)) == Some(true) {
            (None, float_of(o.member(key)))
        } else {
            (float_of(o.member(key)), None)
        }
    } else {
        (None, None)
    }
}

pub open spec fn usize_of(j: Option<JsonV>) -> Option<usize> {
    match uint_of(j) {
        Some(n) => Some(n as usize),
        None => None,
    }
}

/// The bounds a field schema states, before any check.
pub open spec fn stated_constraints(o: JsonV) -> ConstraintsV {
    ConstraintsV {
        minimum: lower_bound(o).0,
        maximum: upper_bound(o).0,
        exclusive_minimum: lower_bound(o).1,
        exclusive_maximum: upper_bound(o).1,
        multiple_of: float_of(o.member("multipleOf"@)),
        min_length: usize_of(o.member("minLength"@)),
        max_length: usize_of(o.member("maxLength"@)),
        pattern: str_of(o.member("pattern"@)),
        min_items: usize_of(o.member("minItems"@)),
        max_items: usize_of(o.member("maxItems"@)),
        unique_items: bool_of(o.member("uniqueItems"@)),
    }
}

pub open spec fn states_any(c: ConstraintsV) -> bool {
    c.minimum is Some || c.maximum is Some || c.exclusive_minimum is Some
        || c.exclusive_maximum is Some || c.multiple_of is Some || c.min_length is Some
        || c.max_length is Some || c.pattern is Some || c.min_items is Some
        || c.max_items is Some || c.unique_items is Some
}

/// The constraints of a field schema: none when it is not an object or
/// states no bound; an error when the bounds contradict one another.
pub open spec fn constraints_of(s: JsonV) -> Result<Option<ConstraintsV>, ErrorV> {
    if !(s is Object) || !states_any(stated_constraints(s)) {
        Ok(None)
    } else {
        match constraint_violation(stated_constraints(s)) {
            Some(v) => Err(ErrorV::InvalidConstraint(v)),
            None => Ok(Some(stated_constraints(s))),
        }
    }
}

pub open spec fn constraints_result_view(r: Result<Option<Constraints>, Error>) -> Result<Option<ConstraintsV>, ErrorV> {
    match r {
        Ok(Some(c)) => Ok(Some(c@)),
        Ok(None) => Ok(None),
        Err(e) => Err(e@),
    }
}

fn read_bound(s: &Json, exclusive_key: &str, key: &str) -> (r: (Option<FloatBits>, Option<FloatBits>))
    ensures
        r == bound_pair(s@, exclusive_key@, key@),
{
    if let Some(exclusive) = read_float(s, exclusive_key) {
        (None, Some(exclusive))
    } else if let Some(bound) = read_float(s, key) {
        if read_bool(s, exclusive_key) == Some(true) {
            (None, Some(bound))
        } else {
            (Some(bound), None)
        }
    } else {
        (None, None)
    }
}

fn read_usize(s: &Json, key: &str) -> (r: Option<usize>)
    ensures
        r == usize_of(s@.member(key@)),
{
    match s.get(key) {
        Some(v) => match v.as_u64() {
            Some(n) => Some(n as usize),
            None => None,
        },
        None => None,
    }
}

fn read_float(s: &Json, key: &str) -> (r: Option<FloatBits>)
    ensures
        r == float_of(s@.member(key@)),
{
    match s.get(key) {
        Some(v) => v.as_f64_bits(),
        None => None,
    }
}

fn read_bool(s: &Json, key: &str) -> (r: Option<bool>)
    ensures
        r == bool_of(s@.member(key@)),
{
    match s.get(key) {
        Some(v) => v.as_bool(),
        None => None,
    }
}

/// Extracts and checks the bounds stated in a field schema.
pub fn extract_constraints_from_object(s: &Json) -> (r: Result<Option<Constraints>, Error>)
    ensures
        constraints_result_view(r) == constraints_of(s@),
{
    if s.as_object().is_none() {
        return Ok(None);
    }
    let lower = read_bound(s, "exclusiveMinimum", "minimum");
    let upper = read_bound(s, "exclusiveMaximum", "maximum");
    let pattern = match s.get("pattern") {
        Some(v) => match v.as_str() {
            Some(p) => Some(p.clone()),
            None => None,
        },
        None => None,
    };
    let c = Constraints {
        minimum: lower.0,
        maximum: upper.0,
        exclusive_minimum: lower.1,
        exclusive_maximum: upper.1,
        multiple_of: read_float(s, "multipleOf"),
        min_length: read_usize(s, "minLength"),
        max_length: read_usize(s, "maxLength"),
        pattern,
        min_items: read_usize(s, "minItems"),
        max_items: read_usize(s, "maxItems"),
        unique_items: read_bool(s, "uniqueItems"),
    };
    assert(c@ == stated_constraints(s@));
    let has_any = c.minimum.is_some() || c.maximum.is_some() || c.exclusive_minimum.is_some()
        || c.exclusive_maximum.is_some() || c.multiple_of.is_some() || c.min_length.is_some()
        || c.max_length.is_some() || c.pattern.is_some() || c.min_items.is_some()
        || c.max_items.is_some() || c.unique_items.is_some();
    if !has_any {
        return Ok(None);
    }
    match c.validate() {
        Ok(()) => Ok(Some(c)),
        Err(e) => Err(e),
    }
}

} // verus!
