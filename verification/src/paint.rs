//! Reading a paint setting from a keyed format: which fields may come, in which
//! cases a field is a duplicate, and which are required. The colour and stroke
//! values themselves are carried through as they were read.

use vstd::prelude::*;

verus! {

/// A field of a paint setting.
#[derive(Clone, Copy, Debug, PartialEq, Eq, Structural)]
pub enum PaintField {
    Color,
    AntiAlias,
    Dither,
    Stroke,
}

/// Why a paint setting could not be read.
#[derive(Clone, Copy, Debug, PartialEq, Eq, Structural)]
pub enum PaintSettingError {
    /// The field was given twice.
    DuplicateField(PaintField),
    /// The required field was not given.
    MissingField(PaintField),
}

/// A complete paint setting: a colour, the two flags, and the stroke, if the paint
/// strokes rather than fills.
#[derive(Debug)]
pub struct PaintParts<C, S> {
    pub color: C,
    pub anti_alias: bool,
    pub dither: bool,
    pub stroke: Option<S>,
}

/// The fields of a paint setting read so far.
#[derive(Debug)]
pub struct PaintFields<C, S> {
    color: Option<C>,
    anti_alias: Option<bool>,
    dither: Option<bool>,
    stroke: Option<S>,
}

impl<C, S> PaintFields<C, S> {
    /// The colour read so far.
    pub closed spec fn color_value(&self) -> Option<C> {
        self.color
    }

    /// The anti-alias flag read so far.
    pub closed spec fn anti_alias_value(&self) -> Option<bool> {
        self.anti_alias
    }

    /// The dither flag read so far.
    pub closed spec fn dither_value(&self) -> Option<bool> {
        self.dither
    }

    /// The stroke read so far; a stroke read as absent leaves nothing behind.
    pub closed spec fn stroke_value(&self) -> Option<S> {
        self.stroke
    }

    /// The field already holds a value.
    pub open spec fn holds(&self, field: PaintField) -> bool {
        match field {
            PaintField::Color => self.color_value() is Some,
            PaintField::AntiAlias => self.anti_alias_value() is Some,
            PaintField::Dither => self.dither_value() is Some,
            PaintField::Stroke => self.stroke_value() is Some,
        }
    }

    /// Nothing read yet.
    pub fn new() -> (fields: Self)
        ensures
            fields.color_value() is None,
            fields.anti_alias_value() is None,
            fields.dither_value() is None,
            fields.stroke_value() is None,
    {
        Self { color: None, anti_alias: None, dither: None, stroke: None }
    }

    /// Checks a key before its value is read: a field that already holds a value
    /// is a duplicate.
    pub fn accept_key(&self, field: PaintField) -> (accepted: Result<(), PaintSettingError>)
        ensures
            self.holds(field) ==> accepted == Err::<(), PaintSettingError>(
                PaintSettingError::DuplicateField(field),
            ),
            !self.holds(field) ==> accepted is Ok,
    {
        let taken = match field {
            PaintField::Color => self.color.is_some(),
            PaintField::AntiAlias => self.anti_alias.is_some(),
            PaintField::Dither => self.dither.is_some(),
            PaintField::Stroke => self.stroke.is_some(),
        };
        if taken {
            Err(PaintSettingError::DuplicateField(field))
        } else {
            Ok(())
        }
    }

    /// Records the colour.
    pub fn set_color(&mut self, color: C)
        ensures
            final(self).color_value() == Some(color),
            final(self).anti_alias_value() == old(self).anti_alias_value(),
            final(self).dither_value() == old(self).dither_value(),
            final(self).stroke_value() == old(self).stroke_value(),
    {
        self.color = Some(color);
    }

    /// Records the anti-alias flag.
    pub fn set_anti_alias(&mut self, anti_alias: bool)
        ensures
            final(self).anti_alias_value() == Some(anti_alias),
            final(self).color_value() == old(self).color_value(),
            final(self).dither_value() == old(self).dither_value(),
            final(self).stroke_value() == old(self).stroke_value(),
    {
        self.anti_alias = Some(anti_alias);
    }

    /// Records the dither flag.
    pub fn set_dither(&mut self, dither: bool)
        ensures
            final(self).dither_value() == Some(dither),
            final(self).color_value() == old(self).color_value(),
            final(self).anti_alias_value() == old(self).anti_alias_value(),
            final(self).stroke_value() == old(self).stroke_value(),
    {
        self.dither = Some(dither);
    }

    /// Records the stroke as it was read; an absent stroke records nothing, so the
    /// key may come again.
    pub fn set_stroke(&mut self, stroke: Option<S>)
        ensures
            final(self).stroke_value() == stroke,
            final(self).color_value() == old(self).color_value(),
            final(self).anti_alias_value() == old(self).anti_alias_value(),
            final(self).dither_value() == old(self).dither_value(),
    {
        self.stroke = stroke;
    }

    /// The complete setting, or the first required field that is missing, checked in
    /// the order colour, anti-alias, dither.
    pub fn finish(self) -> (parts: Result<PaintParts<C, S>, PaintSettingError>)
        ensures
            match (self.color_value(), self.anti_alias_value(), self.dither_value()) {
                (Some(color), Some(anti_alias), Some(dither)) => parts matches Ok(p) && p.color
                    == color && p.anti_alias == anti_alias && p.dither == dither && p.stroke
                    == self.stroke_value(),
                (None, _, _) => parts matches Err(PaintSettingError::MissingField(PaintField::Color)),
                (Some(_), None, _) => parts matches Err(
                    PaintSettingError::MissingField(PaintField::AntiAlias),
                ),
                (Some(_), Some(_), None) => parts matches Err(
                    PaintSettingError::MissingField(PaintField::Dither),
                ),
            },
    {
        let PaintFields { color, anti_alias, dither, stroke } = self;
        let color = match color {
            Some(c) => c,
            None => return Err(PaintSettingError::MissingField(PaintField::Color)),
        };
        let anti_alias = match anti_alias {
            Some(a) => a,
            None => return Err(PaintSettingError::MissingField(PaintField::AntiAlias)),
        };
        let dither = match dither {
            Some(d) => d,
            None => return Err(PaintSettingError::MissingField(PaintField::Dither)),
        };
        Ok(PaintParts { color, anti_alias, dither, stroke })
    }
}

/// The components of a colour read from a sequence: red, green, blue, alpha.
#[derive(Debug)]
pub struct ColorComponents<F> {
    components: Vec<F>,
}

impl<F> ColorComponents<F> {
    /// The components read so far.
    pub closed spec fn received(&self) -> Seq<F> {
        self.components@
    }

    /// No component read yet.
    pub fn new() -> (components: Self)
        ensures
            components.received() == Seq::<F>::empty(),
    {
        Self { components: Vec::new() }
    }

    /// How many components are read.
    pub fn count(&self) -> (count: usize)
        ensures
            count == self.received().len(),
    {
        self.components.len()
    }

    /// Records the next component; only the first four are asked for.
    pub fn push(&mut self, component: F)
        requires
            old(self).received().len() < 4,
        ensures
            final(self).received() == old(self).received().push(component),
    {
        self.components.push(component);
    }

    /// The four components, or the index of the first one the sequence ended before.
    pub fn finish(self) -> (color: Result<Vec<F>, usize>)
        ensures
            self.received().len() >= 4 ==> (color matches Ok(c) && c@ == self.received()),
            self.received().len() < 4 ==> color == Err::<Vec<F>, usize>(
                self.received().len() as usize,
            ),
    {
        let count = self.components.len();
        if count < 4 {
            Err(count)
        } else {
            Ok(self.components)
        }
    }
}

} // verus!
