//! Image dimensions and the orientation derived from them.

use vstd::prelude::*;

verus! {

/// How an image lies: wider than tall, taller than wide, or neither.
#[derive(Clone, Copy, Debug, PartialEq, Eq, Structural)]
pub enum Orientation {
    Landscape,
    Portrait,
    Square,
}

/// The orientation of an image `width` pixels wide and `height` pixels tall.
pub open spec fn orientation_of(width: int, height: int) -> Orientation {
    if width > height {
        Orientation::Landscape
    } else if width < height {
        Orientation::Portrait
    } else {
        Orientation::Square
    }
}

/// The lower-case word under which an orientation is stored.
pub open spec fn orientation_label(o: Orientation) -> Seq<char> {
    match o {
        Orientation::Landscape => "landscape"@,
        Orientation::Portrait => "portrait"@,
        Orientation::Square => "square"@,
    }
}

impl Orientation {
    /// Classifies a width and a height.
    pub fn classify(width: u32, height: u32) -> (o: Orientation)
        ensures
            o == orientation_of(width as int, height as int),
            width > height ==> o == Orientation::Landscape,
            width < height ==> o == Orientation::Portrait,
            width == height ==> o == Orientation::Square,
    {
        if width > height {
            Orientation::Landscape
        } else if width < height {
            Orientation::Portrait
        } else {
            Orientation::Square
        }
    }

    /// The word under which this orientation is stored.
    pub fn label(&self) -> (s: &'static str)
        ensures
            s@ == orientation_label(*self),
    {
        match self {
            Orientation::Landscape => "landscape",
            Orientation::Portrait => "portrait",
            Orientation::Square => "square",
        }
    }
}

/// Width and height of a decoded image, with its orientation.
#[derive(Clone, Copy, Debug, PartialEq, Eq, Structural)]
pub struct Dimensions {
    pub width: u32,
    pub height: u32,
    pub orientation: Orientation,
}

impl Dimensions {
    /// The orientation is the one that width and height give.
    pub open spec fn well_formed(&self) -> bool {
        self.orientation == orientation_of(self.width as int, self.height as int)
    }

    /// The dimensions of an image of the given width and height.
    pub fn new(width: u32, height: u32) -> (d: Dimensions)
        ensures
            d.width == width,
            d.height == height,
            d.orientation == orientation_of(width as int, height as int),
            d.well_formed(),
    {
        Dimensions { width, height, orientation: Orientation::classify(width, height) }
    }
}

} // verus!
