use crate::binary64::Binary64;
use vstd::prelude::*;

verus! {

/// What a statistic says, as plain values: the model that every contract on
/// statistics speaks of.
pub struct StatEntry {
    /// The key that names the statistic within its list.
    pub field: Seq<char>,
    /// The label shown to a reader.
    pub name: Seq<char>,
    /// A reference to a picture, passed through as it is.
    pub icon: Seq<char>,
    /// The magnitude: a fraction of one where `is_percent`, a plain number
    /// otherwise.
    pub value: Binary64,
    /// The magnitude as the source wrote it out.
    pub display: Seq<char>,
    pub is_percent: bool,
}

/// A base statistic of a character or of a light cone.
#[derive(Debug, Clone)]
pub struct AttributeData {
    pub field: String,
    pub name: String,
    pub icon: String,
    pub value: Binary64,
    pub display: String,
    pub is_percent: bool,
}

/// A derived statistic, tagged with the kind of bonus it is.
#[derive(Debug, Clone)]
pub struct PropertyData {
    /// The kind of bonus, as the snapshot's `type` entry names it.
    pub type_tag: String,
    pub field: String,
    pub name: String,
    pub icon: String,
    pub value: Binary64,
    pub display: String,
    pub is_percent: bool,
}

/// The main statistic of a relic.
#[derive(Debug, Clone)]
pub struct MainAffixData {
    pub property: PropertyData,
}

/// A secondary statistic of a relic, with how often it was rolled.
#[derive(Debug, Clone)]
pub struct SubAffixData {
    pub property: PropertyData,
    pub count: u8,
    pub step: u8,
}

/// Anything that can be read as a statistic.
pub trait AttributeLike {
    /// The statistic as plain values.
    spec fn entry(&self) -> StatEntry;

    fn field(&self) -> (field: &String)
        ensures
            field@ == self.entry().field,
    ;

    fn name(&self) -> (name: &String)
        ensures
            name@ == self.entry().name,
    ;

    fn icon(&self) -> (icon: &String)
        ensures
            icon@ == self.entry().icon,
    ;

    fn value(&self) -> (value: Binary64)
        ensures
            value == self.entry().value,
    ;

    fn display(&self) -> (display: &String)
        ensures
            display@ == self.entry().display,
    ;

    fn is_percent(&self) -> (is_percent: bool)
        ensures
            is_percent == self.entry().is_percent,
    ;
}

impl AttributeLike for AttributeData {
    open spec fn entry(&self) -> StatEntry {
        StatEntry {
            field: self.field@,
            name: self.name@,
            icon: self.icon@,
            value: self.value,
            display: self.display@,
            is_percent: self.is_percent,
        }
    }

    fn field(&self) -> &String {
        &self.field
    }

    fn name(&self) -> &String {
        &self.name
    }

    fn icon(&self) -> &String {
        &self.icon
    }

    fn value(&self) -> Binary64 {
        self.value
    }

    fn display(&self) -> &String {
        &self.display
    }

    fn is_percent(&self) -> bool {
        self.is_percent
    }
}

impl AttributeLike for PropertyData {
    open spec fn entry(&self) -> StatEntry {
        StatEntry {
            field: self.field@,
            name: self.name@,
            icon: self.icon@,
            value: self.value,
            display: self.display@,
            is_percent: self.is_percent,
        }
    }

    fn field(&self) -> &String {
        &self.field
    }

    fn name(&self) -> &String {
        &self.name
    }

    fn icon(&self) -> &String {
        &self.icon
    }

    fn value(&self) -> Binary64 {
        self.value
    }

    fn display(&self) -> &String {
        &self.display
    }

    fn is_percent(&self) -> bool {
        self.is_percent
    }
}

impl AttributeLike for MainAffixData {
    open spec fn entry(&self) -> StatEntry {
        self.property.entry()
    }

    fn field(&self) -> &String {
        &self.property.field
    }

    fn name(&self) -> &String {
        &self.property.name
    }

    fn icon(&self) -> &String {
        &self.property.icon
    }

    fn value(&self) -> Binary64 {
        self.property.value
    }

    fn display(&self) -> &String {
        &self.property.display
    }

    fn is_percent(&self) -> bool {
        self.property.is_percent
    }
}

impl AttributeLike for SubAffixData {
    open spec fn entry(&self) -> StatEntry {
        self.property.entry()
    }

    fn field(&self) -> &String {
        &self.property.field
    }

    fn name(&self) -> &String {
        &self.property.name
    }

    fn icon(&self) -> &String {
        &self.property.icon
    }

    fn value(&self) -> Binary64 {
        self.property.value
    }

    fn display(&self) -> &String {
        &self.property.display
    }

    fn is_percent(&self) -> bool {
        self.property.is_percent
    }
}

} // verus!
