//! The document model that a package is assembled from.
use vstd::prelude::*;
use crate::no_multi_level_labels::NoMultiLevelLabels;
use crate::effect_list::EffectList;

verus! {

/// A chart placed on a sheet's drawing.
pub struct Chart {
    pub no_multi_level_labels: NoMultiLevelLabels,
    pub effect_list: Option<EffectList>,
}

/// A picture placed on a sheet's drawing; its bytes are stored as they are.
pub struct Picture {
    pub image: Vec<u8>,
}

/// A comment attached to a cell.
pub struct Comment {
    pub cell: Vec<u8>,
    pub text: Vec<u8>,
}

pub struct Worksheet {
    pub name: Vec<u8>,
    /// The text of each cell, row by row.
    pub rows: Vec<Vec<Vec<u8>>>,
    pub charts: Vec<Chart>,
    pub pictures: Vec<Picture>,
    pub comments: Vec<Comment>,
}

/// What the assembler needs to know of a sheet: how many charts, pictures
/// and comments it owns.
pub struct SheetShape {
    pub charts: nat,
    pub pictures: nat,
    pub comments: nat,
}

/// A sheet owns a drawing where it holds a chart or a picture.
pub open spec fn has_drawing(w: SheetShape) -> bool {
    w.charts > 0 || w.pictures > 0
}

pub open spec fn has_comments(w: SheetShape) -> bool {
    w.comments > 0
}

impl Worksheet {
    pub open spec fn shape(&self) -> SheetShape {
        SheetShape {
            charts: self.charts@.len(),
            pictures: self.pictures@.len(),
            comments: self.comments@.len(),
        }
    }

    pub fn has_drawing_object(&self) -> (r: bool)
        ensures
            r == has_drawing(self.shape()),
    {
        self.charts.len() > 0 || self.pictures.len() > 0
    }

    pub fn has_comments(&self) -> (r: bool)
        ensures
            r == has_comments(self.shape()),
    {
        self.comments.len() > 0
    }
}

/// The core properties of a document, each a text.
pub struct Properties {
    pub title: Vec<u8>,
    pub subject: Vec<u8>,
    pub creator: Vec<u8>,
    pub keywords: Vec<u8>,
    pub description: Vec<u8>,
    pub last_modified_by: Vec<u8>,
    pub revision: Vec<u8>,
    pub created: Vec<u8>,
    pub modified: Vec<u8>,
    pub category: Vec<u8>,
    pub version: Vec<u8>,
}

pub struct Spreadsheet {
    pub properties: Properties,
    pub sheets: Vec<Worksheet>,
    /// The macro project, stored as it is, where the document has one.
    pub vba_project: Option<Vec<u8>>,
}

pub open spec fn shapes(sheets: Seq<Worksheet>) -> Seq<SheetShape> {
    sheets.map_values(|w: Worksheet| w.shape())
}

impl Spreadsheet {
    pub fn get_sheet_count(&self) -> (r: usize)
        ensures
            r == self.sheets@.len(),
    {
        self.sheets.len()
    }

    pub fn get_sheet_collection(&self) -> (r: &Vec<Worksheet>)
        ensures
            r == &self.sheets,
    {
        &self.sheets
    }
}

} // verus!
