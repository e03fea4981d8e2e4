//! Variable font support: design space axes.

use crate::fixed::Fixed;
use crate::text::face::{face_has_variation_table, has_variation_table};
use crate::text::font::{name_of, Font};
use vstd::string::StringExecFns;
use vstd::prelude::*;

verus! {

/// A variable font axis.
#[derive(Debug)]
pub struct VariationAxis {
    /// Axis tag (e.g., "wght" for weight).
    pub tag: String,
    /// Axis name.
    pub name: String,
    /// Minimum value.
    pub min_value: Fixed,
    /// Default value.
    pub default_value: Fixed,
    /// Maximum value.
    pub max_value: Fixed,
}

/// Variable font variation settings.
#[derive(Debug)]
pub struct Variation {
    /// Axis tag.
    pub tag: String,
    /// Value for this axis.
    pub value: Fixed,
}

impl Clone for VariationAxis {
    fn clone(&self) -> (copy: VariationAxis)
        ensures
            copy.tag@ == self.tag@,
            copy.name@ == self.name@,
            copy.min_value == self.min_value,
            copy.default_value == self.default_value,
            copy.max_value == self.max_value,
    {
        VariationAxis {
            tag: self.tag.clone(),
            name: self.name.clone(),
            min_value: self.min_value,
            default_value: self.default_value,
            max_value: self.max_value,
        }
    }
}

impl Clone for Variation {
    fn clone(&self) -> (copy: Variation)
        ensures
            copy.tag@ == self.tag@,
            copy.value == self.value,
    {
        Variation { tag: self.tag.clone(), value: self.value }
    }
}

/// Variable font manager.
pub struct VariableFontManager;

/// The name of an axis whose name has the ID `name_id`: the font's name
/// with that ID, or "Unknown" where the font has none.
pub open spec fn axis_name_of(data: Seq<u8>, name_id: u16) -> Seq<char> {
    match name_of(data, name_id) {
        Some(text) => text,
        None => "Unknown"@,
    }
}

impl VariableFontManager {
    /// Whether the font is a variable font, that is, has a table of axes.
    pub fn is_variable(font: &Font) -> (b: bool)
        ensures
            b == has_variation_table(font@),
    {
        face_has_variation_table(font.data())
    }

    /// The name of an axis, looked up by its name ID in the font's table of
    /// names; "Unknown" where the font gives none.
    pub fn axis_name(font: &Font, name_id: u16) -> (name: String)
        ensures
            name@ == axis_name_of(font@, name_id),
    {
        match font.name(name_id) {
            Some(text) => text,
            None => String::from_str("Unknown"),
        }
    }

    /// Named instances (predefined variations). They are not read yet: the
    /// list is empty.
    pub fn instances(_font: &Font) -> (names: Vec<String>)
        ensures
            names@.len() == 0,
    {
        Vec::new()
    }
}

} // verus!
