//! The canonical records that parsing produces, and their mathematical views.

use vstd::prelude::*;

verus! {

/// A day of the proleptic Gregorian calendar.
#[derive(Clone, Copy, Debug, PartialEq, Eq, Structural)]
pub struct CalendarDate {
    pub year: i32,
    pub month: u32,
    pub day: u32,
}

/// A numeric observation as the source states it.
#[derive(Clone, Debug, PartialEq, Eq)]
pub enum Amount {
    /// A whole number of currency units.
    Units(i64),
    /// A whole number of thousands of currency units.
    Thousands(i128),
    /// A decimal numeral, kept as written.
    Numeral(String),
}

pub enum AmountView {
    Units(int),
    Thousands(int),
    Numeral(Seq<char>),
}

impl View for Amount {
    type V = AmountView;

    open spec fn view(&self) -> AmountView {
        match self {
            Amount::Units(n) => AmountView::Units(*n as int),
            Amount::Thousands(n) => AmountView::Thousands(*n as int),
            Amount::Numeral(s) => AmountView::Numeral(s@),
        }
    }
}

impl AmountView {
    /// The amount in currency units, where it is a whole number.
    pub open spec fn whole_units(self) -> Option<int> {
        match self {
            AmountView::Units(n) => Some(n),
            AmountView::Thousands(n) => Some(1000 * n),
            AmountView::Numeral(_) => None,
        }
    }
}

impl Amount {
    /// The amount in currency units, where it is a whole number that
    /// fits; a numeral is left to its reader.
    pub fn whole_units(&self) -> (r: Option<i128>)
        ensures
            match r {
                Some(v) => self@.whole_units() == Some(v as int),
                None => match self@.whole_units() {
                    Some(v) => v < i128::MIN || v > i128::MAX,
                    None => true,
                },
            },
    {
        match self {
            Amount::Units(n) => Some(*n as i128),
            Amount::Thousands(n) => n.checked_mul(1000),
            Amount::Numeral(_) => None,
        }
    }
}

impl DeepView for Amount {
    type V = AmountView;

    open spec fn deep_view(&self) -> AmountView {
        self@
    }
}

/// The value of a secondary dimension.
#[derive(Clone, Debug, PartialEq, Eq)]
pub enum DimValue {
    Text(String),
    Count(usize),
}

pub enum DimValueView {
    Text(Seq<char>),
    Count(nat),
}

impl View for DimValue {
    type V = DimValueView;

    open spec fn view(&self) -> DimValueView {
        match self {
            DimValue::Text(s) => DimValueView::Text(s@),
            DimValue::Count(n) => DimValueView::Count(*n as nat),
        }
    }
}

/// One named secondary dimension of a fact.
#[derive(Clone, Debug, PartialEq, Eq)]
pub struct Dim {
    pub name: String,
    pub value: DimValue,
}

pub struct DimView {
    pub name: Seq<char>,
    pub value: DimValueView,
}

impl View for Dim {
    type V = DimView;

    open spec fn view(&self) -> DimView {
        DimView { name: self.name@, value: self.value@ }
    }
}

impl DeepView for Dim {
    type V = DimView;

    open spec fn deep_view(&self) -> DimView {
        self@
    }
}

/// A fact candidate: one observation with the identity keys it resolves
/// to and the place in the artifact it was read from.
#[derive(Clone, Debug, PartialEq, Eq)]
pub struct ParsedFact {
    pub entity_key: String,
    pub entity_name: String,
    pub entity_type: String,
    pub metric_key: String,
    pub metric_name: String,
    pub metric_unit: String,
    pub period_start: CalendarDate,
    pub period_end: CalendarDate,
    pub value: Amount,
    pub location: String,
    pub dims: Vec<Dim>,
}

pub struct FactView {
    pub entity_key: Seq<char>,
    pub entity_name: Seq<char>,
    pub entity_type: Seq<char>,
    pub metric_key: Seq<char>,
    pub metric_name: Seq<char>,
    pub metric_unit: Seq<char>,
    pub period_start: CalendarDate,
    pub period_end: CalendarDate,
    pub value: AmountView,
    pub location: Seq<char>,
    pub dims: Seq<DimView>,
}

impl View for ParsedFact {
    type V = FactView;

    open spec fn view(&self) -> FactView {
        FactView {
            entity_key: self.entity_key@,
            entity_name: self.entity_name@,
            entity_type: self.entity_type@,
            metric_key: self.metric_key@,
            metric_name: self.metric_name@,
            metric_unit: self.metric_unit@,
            period_start: self.period_start,
            period_end: self.period_end,
            value: self.value@,
            location: self.location@,
            dims: self.dims.deep_view(),
        }
    }
}

impl DeepView for ParsedFact {
    type V = FactView;

    open spec fn deep_view(&self) -> FactView {
        self@
    }
}

} // verus!
