//! The displays Snowland renders onto.

use vstd::prelude::*;

use crate::text::{append_decimal_i64, decimal};

verus! {

/// What a [`Display`] holds, as mathematical values.
pub ghost struct DisplayView {
    pub name: Seq<char>,
    pub id: Seq<char>,
    pub primary: bool,
    pub x: i32,
    pub y: i32,
    pub width: i32,
    pub height: i32,
}

/// A physical display, placed in the virtual desktop.
#[derive(Debug, PartialEq, Eq, PartialOrd, Ord)]
pub struct Display {
    name: String,
    id: String,
    primary: bool,
    x: i32,
    y: i32,
    width: i32,
    height: i32,
}

impl View for Display {
    type V = DisplayView;

    closed spec fn view(&self) -> DisplayView {
        DisplayView {
            name: self.name@,
            id: self.id@,
            primary: self.primary,
            x: self.x,
            y: self.y,
            width: self.width,
            height: self.height,
        }
    }
}

/// The placeholder used before any display is known.
pub open spec fn uninitialized_display() -> DisplayView {
    DisplayView {
        name: "Virtual uninitialized Display"@,
        id: "UNINITIALIZED"@,
        primary: false,
        x: -1i32,
        y: -1i32,
        width: -1i32,
        height: -1i32,
    }
}

impl Display {
    /// A placeholder display that stands for "no display known yet".
    pub fn uninitialized() -> (display: Self)
        ensures
            display@ == uninitialized_display(),
    {
        Self {
            name: "Virtual uninitialized Display".to_owned(),
            id: "UNINITIALIZED".to_owned(),
            primary: false,
            x: -1i32,
            y: -1i32,
            width: -1i32,
            height: -1i32,
        }
    }

    /// Creates a display from its properties.
    pub fn new(
        name: String,
        id: String,
        primary: bool,
        x: i32,
        y: i32,
        width: i32,
        height: i32,
    ) -> (display: Self)
        ensures
            display@ == (DisplayView {
                name: name@,
                id: id@,
                primary,
                x,
                y,
                width,
                height,
            }),
    {
        Self { name, id, primary, x, y, width, height }
    }

    /// The human readable name of the display.
    pub fn name(&self) -> (name: &String)
        ensures
            name@ == self@.name,
    {
        &self.name
    }

    /// The platform identifier of the display.
    pub fn id(&self) -> (id: &String)
        ensures
            id@ == self@.id,
    {
        &self.id
    }

    /// Whether this is the primary display.
    pub fn primary(&self) -> (primary: bool)
        ensures
            primary == self@.primary,
    {
        self.primary
    }

    /// The horizontal position of the display's left edge.
    pub fn x(&self) -> (x: i32)
        ensures
            x == self@.x,
    {
        self.x
    }

    /// The vertical position of the display's top edge.
    pub fn y(&self) -> (y: i32)
        ensures
            y == self@.y,
    {
        self.y
    }

    /// The width of the display in pixels.
    pub fn width(&self) -> (width: i32)
        ensures
            width == self@.width,
    {
        self.width
    }

    /// The height of the display in pixels.
    pub fn height(&self) -> (height: i32)
        ensures
            height == self@.height,
    {
        self.height
    }

    /// The same display, moved to another position.
    pub fn remap_coordinates(self, new_x: i32, new_y: i32) -> (display: Self)
        ensures
            display@ == (DisplayView { x: new_x, y: new_y, ..self@ }),
    {
        Self { x: new_x, y: new_y, ..self }
    }
}

impl Display {
    /// How the display is shown to people: its name, then its size as
    /// `width` by `height`.
    pub fn describe(&self) -> (text: String)
        ensures
            text@ == self@.name + " "@ + decimal(self@.width as int) + "x"@ + decimal(
                self@.height as int,
            ),
    {
        let mut text = self.name.clone();
        text.append(" ");
        append_decimal_i64(&mut text, self.width as i64);
        text.append("x");
        append_decimal_i64(&mut text, self.height as i64);
        text
    }
}

impl Clone for Display {
    fn clone(&self) -> (copy: Self)
        ensures
            copy@ == self@,
    {
        Self {
            name: self.name.clone(),
            id: self.id.clone(),
            primary: self.primary,
            x: self.x,
            y: self.y,
            width: self.width,
            height: self.height,
        }
    }
}

} // verus!
