//! Handles of the X11 and GLX objects the Linux host draws with. Native handles
//! and display connections are held as the integer values of their pointers.

use vstd::prelude::*;

verus! {

/// A GLX rendering context, bound to a display connection.
#[derive(Debug)]
pub struct GLXContext {
    handle: u64,
    display: u64,
}

impl GLXContext {
    /// Wraps a native context created on `display`.
    pub fn new(handle: u64, display: u64) -> (context: Self)
        ensures
            context.handle_value() == handle,
            context.display_value() == display,
    {
        Self { handle, display }
    }

    /// The native context.
    pub closed spec fn handle_value(&self) -> u64 {
        self.handle
    }

    /// The display connection.
    pub closed spec fn display_value(&self) -> u64 {
        self.display
    }

    /// The native context.
    pub fn handle(&self) -> (handle: u64)
        ensures
            handle == self.handle_value(),
    {
        self.handle
    }
}

/// A framebuffer configuration of a display connection.
#[derive(Clone, Copy, Debug, PartialEq, Eq, Structural)]
pub struct GLXFBConfig {
    handle: u64,
    display: u64,
}

impl GLXFBConfig {
    /// Wraps a native configuration of `display`.
    pub fn new(handle: u64, display: u64) -> (config: Self)
        ensures
            config.handle_value() == handle,
            config.display_value() == display,
    {
        Self { handle, display }
    }

    /// The native configuration.
    pub closed spec fn handle_value(&self) -> u64 {
        self.handle
    }

    /// The display connection.
    pub closed spec fn display_value(&self) -> u64 {
        self.display
    }

    /// The native configuration.
    pub fn handle(&self) -> (handle: u64)
        ensures
            handle == self.handle_value(),
    {
        self.handle
    }

    /// The same configuration, used beyond the array it was read from; it stays
    /// valid as long as its display connection.
    pub fn extend_lifetime(self, display: u64) -> (config: Self)
        requires
            self.display_value() == display,
        ensures
            config == self,
    {
        Self { display, handle: self.handle }
    }
}

/// The framebuffer configurations a display connection offers.
#[derive(Debug)]
pub struct GLXFBConfigArray {
    handle: u64,
    configs: Vec<u64>,
    display: u64,
}

impl GLXFBConfigArray {
    /// The native configurations, in order.
    pub closed spec fn configs(&self) -> Seq<u64> {
        self.configs@
    }

    /// The native array.
    pub closed spec fn handle_value(&self) -> u64 {
        self.handle
    }

    /// The display connection.
    pub closed spec fn display_value(&self) -> u64 {
        self.display
    }

    /// Wraps a native array at `handle` holding `configs`, of `display`.
    pub fn wrap(handle: u64, configs: Vec<u64>, display: u64) -> (array: Self)
        ensures
            array.handle_value() == handle,
            array.configs() == configs@,
            array.display_value() == display,
    {
        Self { handle, configs, display }
    }

    /// The native array.
    pub fn handle(&self) -> (handle: u64)
        ensures
            handle == self.handle_value(),
    {
        self.handle
    }

    /// The configuration at `index`, if there is one.
    pub fn config_at(&self, index: usize) -> (config: Option<GLXFBConfig>)
        ensures
            index < self.configs().len() ==> (config matches Some(c) && c.handle_value()
                == self.configs()[index as int] && c.display_value() == self.display_value()),
            index >= self.configs().len() ==> config is None,
    {
        if index >= self.configs.len() {
            None
        } else {
            Some(GLXFBConfig::new(self.configs[index], self.display))
        }
    }

    /// An iterator over the configurations.
    pub fn iter(&self) -> (iter: GLXFBConfigArrayIter<'_>)
        ensures
            iter.array() == self,
            iter.position() == 0,
    {
        GLXFBConfigArrayIter::new(self)
    }

    /// How many configurations there are.
    pub fn count(&self) -> (count: usize)
        ensures
            count == self.configs().len(),
    {
        self.configs.len()
    }
}

/// Walks the configurations of an array in order.
pub struct GLXFBConfigArrayIter<'a> {
    array: &'a GLXFBConfigArray,
    pos: usize,
}

impl<'a> GLXFBConfigArrayIter<'a> {
    /// The array walked over.
    pub closed spec fn array(&self) -> &'a GLXFBConfigArray {
        self.array
    }

    /// How many configurations were handed out.
    pub closed spec fn position(&self) -> usize {
        self.pos
    }

    /// The position never passes the end of the array.
    #[verifier::type_invariant]
    spec fn within_array(&self) -> bool {
        self.pos <= self.array.configs@.len()
    }

    /// Starts at the first configuration of `array`.
    pub fn new(array: &'a GLXFBConfigArray) -> (iter: Self)
        ensures
            iter.array() == array,
            iter.position() == 0,
    {
        Self { array, pos: 0 }
    }

    /// The configuration at the current position, moving past it; `None` at the end.
    pub fn next(&mut self) -> (config: Option<GLXFBConfig>)
        ensures
            final(self).position() <= final(self).array().configs().len(),
            final(self).array() == old(self).array(),
            old(self).position() < old(self).array().configs().len() ==> {
                &&& config matches Some(c) && c.handle_value() == old(self).array().configs()[old(
                    self,
                ).position() as int]
                &&& final(self).position() == old(self).position() + 1
            },
            old(self).position() >= old(self).array().configs().len() ==> {
                &&& config is None
                &&& final(self).position() == old(self).position()
            },
    {
        proof {
            use_type_invariant(&*self);
        }
        if self.pos < self.array.count() {
            let config = self.array.config_at(self.pos);
            self.pos = self.pos + 1;
            config
        } else {
            None
        }
    }

    /// How many configurations are left, as a lower and an upper bound.
    pub fn size_hint(&self) -> (hint: (usize, Option<usize>))
        ensures
            hint.0 == self.array().configs().len() - self.position(),
            hint.1 == Some(hint.0),
    {
        proof {
            use_type_invariant(self);
        }
        let remaining = self.array.count() - self.pos;
        (remaining, Some(remaining))
    }

    /// How many configurations are left.
    pub fn count(self) -> (count: usize)
        ensures
            count == self.array().configs().len() - self.position(),
    {
        proof {
            use_type_invariant(&self);
        }
        self.array.count() - self.pos
    }

    /// The last configuration still to come, or `None` when none is left.
    pub fn last(self) -> (config: Option<GLXFBConfig>)
        ensures
            self.position() < self.array().configs().len() ==> (config matches Some(c)
                && c.handle_value() == self.array().configs().last() && c.display_value()
                == self.array().display_value()),
            self.position() >= self.array().configs().len() ==> config is None,
    {
        proof {
            use_type_invariant(&self);
        }
        let count = self.array.count();
        if self.pos < count {
            self.array.config_at(count - 1)
        } else {
            None
        }
    }

    /// Skips `n` configurations and hands out the one after them, counted from the
    /// current position; `None` when fewer are left. The position moves past what was
    /// skipped and handed out, but not past the end.
    pub fn nth(&mut self, n: usize) -> (config: Option<GLXFBConfig>)
        ensures
            final(self).array() == old(self).array(),
            old(self).position() + n < old(self).array().configs().len() ==> {
                &&& config matches Some(c) && c.handle_value() == old(self).array().configs()[old(
                    self,
                ).position() + n] && c.display_value() == old(self).array().display_value()
                &&& final(self).position() == old(self).position() + n + 1
            },
            old(self).position() + n >= old(self).array().configs().len() ==> {
                &&& config is None
                &&& final(self).position() == old(self).array().configs().len()
            },
    {
        proof {
            use_type_invariant(&*self);
        }
        let count = self.array.count();
        let remaining = count - self.pos;
        if n < remaining {
            let index = self.pos + n;
            let config = self.array.config_at(index);
            self.pos = index + 1;
            config
        } else {
            self.pos = count;
            None
        }
    }
}

/// An X11 atom, with the display connection it was interned on, if any.
#[derive(Clone, Copy, Debug)]
pub struct XAtom {
    handle: u64,
    display: Option<u64>,
}

impl XAtom {
    /// The atom's id.
    pub closed spec fn handle_value(&self) -> u64 {
        self.handle
    }

    /// The display connection the atom belongs to; `None` for predefined atoms.
    pub closed spec fn display_value(&self) -> Option<u64> {
        self.display
    }

    /// Wraps an atom of `display`.
    pub fn new(handle: u64, display: u64) -> (atom: Self)
        ensures
            atom.handle_value() == handle,
            atom.display_value() == Some(display),
    {
        Self { handle, display: Some(display) }
    }

    /// A predefined atom, valid on every display connection.
    fn standard(handle: u64) -> (atom: Self)
        ensures
            atom.handle_value() == handle,
            atom.display_value() is None,
    {
        Self { handle, display: None }
    }

    /// The atom's id.
    pub fn handle(&self) -> (handle: u64)
        ensures
            handle == self.handle_value(),
    {
        self.handle
    }

    /// The `AnyPropertyType` atom.
    pub fn any_property_type() -> (atom: Self)
        ensures
            atom.handle_value() == 0,
            atom.display_value() is None,
    {
        Self::standard(0)
    }

    /// The predefined `PIXMAP` atom.
    pub fn pixmap() -> (atom: Self)
        ensures
            atom.handle_value() == 20,
            atom.display_value() is None,
    {
        Self::standard(20)
    }
}

impl PartialEq for XAtom {
    fn eq(&self, other: &Self) -> (same: bool) {
        self.handle == other.handle
    }
}

impl vstd::std_specs::cmp::PartialEqSpecImpl for XAtom {
    open spec fn obeys_eq_spec() -> bool {
        true
    }

    open spec fn eq_spec(&self, other: &Self) -> bool {
        self.handle_value() == other.handle_value()
    }
}

impl Eq for XAtom {}

/// `GLX_BAD_ATTRIBUTE`.
pub const GLX_BAD_ATTRIBUTE: i32 = 2;

/// Why a GLX query failed.
#[derive(Clone, Copy, Debug, PartialEq, Eq, Structural)]
pub enum GLXError {
    /// The attribute is not known.
    BadAttribute(i32),
    /// Another failure, by its status.
    GenericError(i32),
}

/// What querying the attribute `attribute` of a configuration gave, from the status
/// of the query and the value it wrote.
pub fn attribute_result(status: i32, value: i32, attribute: i32) -> (result: Result<i32, GLXError>)
    ensures
        result == if status == 0 {
            Ok::<i32, GLXError>(value)
        } else if status == GLX_BAD_ATTRIBUTE {
            Err(GLXError::BadAttribute(attribute))
        } else {
            Err(GLXError::GenericError(status))
        },
{
    if status == 0 {
        Ok(value)
    } else if status == GLX_BAD_ATTRIBUTE {
        Err(GLXError::BadAttribute(attribute))
    } else {
        Err(GLXError::GenericError(status))
    }
}

/// The size of a drawing surface in the signed pixel counts the renderer works with,
/// or `None` when a side is larger than `i32::MAX`.
pub fn surface_size(width: u64, height: u64) -> (size: Option<(i32, i32)>)
    ensures
        width <= i32::MAX && height <= i32::MAX ==> size == Some((width as i32, height as i32)),
        !(width <= i32::MAX && height <= i32::MAX) ==> size is None,
{
    if width > i32::MAX as u64 || height > i32::MAX as u64 {
        None
    } else {
        Some((width as i32, height as i32))
    }
}

} // verus!
