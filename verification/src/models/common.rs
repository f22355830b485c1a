//! Common model types: the tri-state field update and the pagination
//! envelope, together with the two effectful helpers every entity
//! constructor uses: the current time and a fresh identifier.

use vstd::prelude::*;

verus! {

/// The current time as milliseconds since the Unix epoch.
///
/// Relies on `chrono::Utc::now` and `chrono::DateTime::timestamp_millis`.
/// The result depends on the clock, so nothing is promised of it.
#[verifier::external_body]
pub(crate) fn now_millis() -> i64 {
    chrono::Utc::now().timestamp_millis()
}

/// A freshly generated identifier.
///
/// Relies on `uuid::Uuid::new_v4` and its `Display` implementation, which
/// renders a version-4 UUID in the hyphenated form of exactly 36 characters.
/// The value is random, so nothing more is promised of it.
#[verifier::external_body]
pub(crate) fn fresh_id() -> (r: String)
    ensures
        r@.len() == 36,
{
    uuid::Uuid::new_v4().to_string()
}

/// Describes what an update payload intends for one optional field.
///
/// This solves the `Option<Option<T>>` problem where we need to distinguish
/// between:
/// - not updating a field (`Keep`),
/// - clearing a field to `None` (`Clear`),
/// - assigning a new value to a field (`Assign`).
#[derive(Debug, Clone, PartialEq, Eq, Default)]
pub enum FieldUpdate<T> {
    /// Keep the current value (don't update).
    #[default]
    Keep,
    /// Clear the field (set to None).
    Clear,
    /// Assign a new value.
    Assign(T),
}

/// What [`FieldUpdate::apply`] returns: `Keep` leaves the current value,
/// `Clear` yields `None`, `Assign(v)` yields `Some(v)`.
pub open spec fn spec_apply<T>(update: FieldUpdate<T>, current: Option<T>) -> Option<T> {
    match update {
        FieldUpdate::Keep => current,
        FieldUpdate::Clear => None,
        FieldUpdate::Assign(v) => Some(v),
    }
}

impl<T> FieldUpdate<T> {
    /// Apply this update to an optional field.
    pub fn apply(self, current: Option<T>) -> (r: Option<T>)
        ensures
            r == spec_apply(self, current),
    {
        match self {
            Self::Keep => current,
            Self::Clear => None,
            Self::Assign(value) => Some(value),
        }
    }

    /// Check if this update will change the value.
    pub fn is_update(&self) -> (r: bool)
        ensures
            r == !(*self is Keep),
    {
        !(matches!(self, Self::Keep))
    }
}

/// A paginated response.
#[derive(Debug, Clone)]
pub struct Page<T> {
    /// The items in this page.
    pub items: Vec<T>,
    /// Total number of items across all pages.
    pub total: usize,
    /// Offset of the first item in this page.
    pub offset: usize,
    /// Maximum number of items per page.
    pub limit: usize,
}

impl<T> Page<T> {
    /// Create a new page.
    pub fn new(items: Vec<T>, total: usize, offset: usize, limit: usize) -> (r: Self)
        ensures
            r.items == items,
            r.total == total,
            r.offset == offset,
            r.limit == limit,
    {
        Self { items, total, offset, limit }
    }

    /// Check if there are more pages after this one.
    pub fn has_next(&self) -> (r: bool)
        requires
            self.offset + self.items@.len() <= usize::MAX,
        ensures
            r == (self.offset + self.items@.len() < self.total),
    {
        self.offset + self.items.len() < self.total
    }

    /// Check if there are pages before this one.
    pub fn has_prev(&self) -> (r: bool)
        ensures
            r == (self.offset > 0),
    {
        self.offset > 0
    }

    /// Get the current page number (0-indexed).
    pub fn page_number(&self) -> (r: usize)
        ensures
            r == (if self.limit == 0 { 0int } else { self.offset as int / self.limit as int }),
    {
        if self.limit == 0 {
            0
        } else {
            self.offset / self.limit
        }
    }

    /// Get the total number of pages: the count of items divided by the page
    /// limit, rounded up (one page when the limit is zero).
    pub fn total_pages(&self) -> (r: usize)
        ensures
            self.limit == 0 ==> r == 1,
            self.limit != 0 ==> r == self.total as int / self.limit as int + (
            if self.total as int % self.limit as int != 0 {
                1int
            } else {
                0int
            }),
    {
        if self.limit == 0 {
            1
        } else {
            let q: usize = self.total / self.limit;
            let rm: usize = self.total % self.limit;
            if rm != 0 {
                assert(self.limit >= 2) by {
                    if self.limit == 1 {
                        assert(self.total as int % 1int == 0) by (nonlinear_arith);
                    }
                }
                assert(q < usize::MAX) by {
                    assert(self.limit >= 2 && self.total <= usize::MAX ==> self.total as int
                        / self.limit as int <= usize::MAX as int / 2) by (nonlinear_arith);
                }
                q + 1
            } else {
                q
            }
        }
    }
}

} // verus!
