//! Catalog data: organizations, menu items, and values that are either a
//! single reading or a range.

use crate::decimal::{
    as_i64, decimal_text, format_decimal, lemma_parsed_decimal_text, parse_decimal, parsed_integer,
};
use vstd::prelude::*;

verus! {

/// A customer of the service. No attribute of a customer is recorded yet.
pub struct User {}

/// Storage of customers. No backend exists yet: the only repository is
/// detached from any storage.
pub enum UserRepo {
    Detached,
}

/// Identifier of an organization.
#[derive(Debug, PartialEq, Eq, PartialOrd, Ord, Clone, Copy, Structural)]
pub struct OrgId(pub i64);

/// An organization that offers services.
pub struct Org {
    pub channel_id: u64,
    pub name: String,
    pub description: Option<String>,
    pub picture_url: Option<String>,
}

/// Identifier of a menu item.
#[derive(Debug, PartialEq, Eq, PartialOrd, Ord, Clone, Copy, Structural)]
pub struct MenuItemId(pub i64);

/// A text that is no identifier of a menu item.
#[derive(Debug, Clone, Copy, PartialEq, Eq, Structural)]
pub struct ParseIdError;

impl MenuItemId {
    /// The identifier in decimal.
    pub fn to_string(&self) -> (text: String)
        ensures
            text@ == decimal_text(self.0 as int),
    {
        format_decimal(self.0)
    }

    /// Reads an identifier from decimal text: an optional sign, then digits.
    /// Fails on any other text, and on a number too large for an identifier.
    pub fn from_str(text: &str) -> (id: Result<MenuItemId, ParseIdError>)
        ensures
            match id {
                Ok(id) => as_i64(parsed_integer(text@)) == Some(id.0),
                Err(_) => as_i64(parsed_integer(text@)) is None,
            },
    {
        match parse_decimal(text) {
            Some(value) => Ok(MenuItemId(value)),
            None => Err(ParseIdError),
        }
    }

    /// An identifier is read back from its own decimal text.
    pub proof fn lemma_text_round_trip(self)
        ensures
            as_i64(parsed_integer(decimal_text(self.0 as int))) == Some(self.0),
    {
        lemma_parsed_decimal_text(self.0 as int);
    }
}

/// A reading that a catalog row gives either as one value or as a range.
#[derive(Debug, Clone, Copy, PartialEq, Eq, Structural)]
pub enum IntervalValue<T> {
    Value(T),
    Interval(T, T),
}

/// A catalog row that carries neither bound of a reading.
#[derive(Debug, Clone, Copy, PartialEq, Eq, Structural)]
pub struct CatalogIntegrityError;

/// The catalog could not be read.
#[derive(Debug, Clone, Copy, PartialEq, Eq, Structural)]
pub struct CatalogReadError;

/// Why a listing of menu items is not there.
#[derive(Debug, Clone, Copy, PartialEq, Eq, Structural)]
pub enum CatalogFailure {
    Read(CatalogReadError),
    Integrity(CatalogIntegrityError),
}

impl<T> IntervalValue<T> {
    /// What two optional bounds normalize to: both make a range, one alone is
    /// a single value, and none is no value at all.
    pub open spec fn normalized(bounds: (Option<T>, Option<T>)) -> Option<IntervalValue<T>> {
        match bounds {
            (Some(low), Some(high)) => Some(IntervalValue::Interval(low, high)),
            (Some(only), None) => Some(IntervalValue::Value(only)),
            (None, Some(only)) => Some(IntervalValue::Value(only)),
            (None, None) => None,
        }
    }

    /// Normalization case by case: two bounds are a range, one bound is a
    /// value whichever side it stands on, and no bound is nothing.
    pub proof fn lemma_normalization(a: T, b: T)
        ensures
            Self::normalized((Some(a), Some(b))) == Some(IntervalValue::Interval(a, b)),
            Self::normalized((Some(a), None)) == Some(IntervalValue::Value(a)),
            Self::normalized((None, Some(b))) == Some(IntervalValue::Value(b)),
            Self::normalized((None, None)) is None,
    {
    }

    /// Normalizes two optional bounds of which at least one is present.
    pub fn from(bounds: (Option<T>, Option<T>)) -> (value: Self)
        requires
            bounds.0 is Some || bounds.1 is Some,
        ensures
            Self::normalized(bounds) == Some(value),
    {
        match bounds {
            (Some(low), Some(high)) => IntervalValue::Interval(low, high),
            (Some(only), None) => IntervalValue::Value(only),
            (None, Some(only)) => IntervalValue::Value(only),
            (None, None) => vstd::pervasive::unreached(),
        }
    }
}

impl<T> IntervalValue<T> {
    /// Normalizes two optional bounds, and refuses a pair that holds none.
    pub fn checked_from(bounds: (Option<T>, Option<T>)) -> (outcome: Result<
        Self,
        CatalogIntegrityError,
    >)
        ensures
            match outcome {
                Ok(value) => Self::normalized(bounds) == Some(value),
                Err(_) => Self::normalized(bounds) is None,
            },
    {
        if bounds.0.is_none() && bounds.1.is_none() {
            Err(CatalogIntegrityError)
        } else {
            Ok(Self::from(bounds))
        }
    }
}

/// A menu item as the catalog stores it: each reading as two optional bounds.
#[derive(Debug)]
pub struct MenuItemRow {
    pub id: i64,
    pub title: String,
    pub icon: Option<String>,
    pub price_min: Option<i32>,
    pub price_max: Option<i32>,
    pub duration_min: Option<i64>,
    pub duration_max: Option<i64>,
}

/// A node of the service catalog. A node without children is a service that
/// can be booked. The duration is in minutes.
#[derive(Debug)]
pub struct MenuItem {
    pub id: MenuItemId,
    pub title: String,
    pub icon: Option<String>,
    pub price: IntervalValue<i32>,
    pub duration: IntervalValue<i64>,
}

impl MenuItem {
    /// The menu item that a row stands for. A row that lacks both bounds of
    /// its price, or both of its duration, stands for none.
    pub open spec fn of_row(row: MenuItemRow) -> Result<MenuItem, CatalogIntegrityError> {
        match (
            IntervalValue::normalized((row.price_min, row.price_max)),
            IntervalValue::normalized((row.duration_min, row.duration_max)),
        ) {
            (Some(price), Some(duration)) => Ok(
                MenuItem { id: MenuItemId(row.id), title: row.title, icon: row.icon, price, duration },
            ),
            _ => Err(CatalogIntegrityError),
        }
    }

    /// Turns a row of the catalog into a menu item.
    pub fn from(row: MenuItemRow) -> (outcome: Result<MenuItem, CatalogIntegrityError>)
        ensures
            outcome == Self::of_row(row),
    {
        let price = match IntervalValue::checked_from((row.price_min, row.price_max)) {
            Ok(price) => price,
            Err(e) => {
                return Err(e);
            },
        };
        let duration = match IntervalValue::checked_from((row.duration_min, row.duration_max)) {
            Ok(duration) => duration,
            Err(e) => {
                return Err(e);
            },
        };
        Ok(MenuItem { id: MenuItemId(row.id), title: row.title, icon: row.icon, price, duration })
    }

    /// Turns the rows of one listing into menu items, in their order. One
    /// row that stands for no item fails the whole listing.
    pub fn listing(rows: Vec<MenuItemRow>) -> (outcome: Result<Vec<MenuItem>, CatalogIntegrityError>)
        ensures
            match outcome {
                Ok(items) => {
                    &&& items@.len() == rows@.len()
                    &&& forall|i: int|
                        0 <= i < rows@.len() ==> Self::of_row(#[trigger] rows@[i]) == Ok::<
                            MenuItem,
                            CatalogIntegrityError,
                        >(items@[i])
                },
                Err(_) => exists|i: int|
                    0 <= i < rows@.len() && Self::of_row(#[trigger] rows@[i]) is Err,
            },
    {
        let mut items: Vec<MenuItem> = Vec::new();
        for row in it: rows
            invariant
                it.seq() == rows@,
                items@.len() == it.index(),
                forall|i: int|
                    0 <= i < it.index() ==> Self::of_row(#[trigger] rows@[i]) == Ok::<
                        MenuItem,
                        CatalogIntegrityError,
                    >(items@[i]),
        {
            match MenuItem::from(row) {
                Ok(item) => {
                    items.push(item);
                },
                Err(e) => {
                    return Err(e);
                },
            }
        }
        Ok(items)
    }
}

} // verus!
