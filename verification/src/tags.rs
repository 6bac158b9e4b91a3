use vstd::prelude::*;

verus! {

/// A DICOM attribute tag: a (group, element) pair of 16-bit words.
#[derive(Clone, Copy, Debug, Hash, PartialEq, Eq, Structural)]
pub struct Tag {
    pub group: u16,
    pub element: u16,
}

impl Tag {
    pub fn new(group: u16, element: u16) -> (r: Tag)
        ensures
            r == (Tag { group, element }),
    {
        Tag { group, element }
    }
}

/// The value representations this library writes: short string, date,
/// person name, and long string.
#[derive(Clone, Copy, Debug, PartialEq, Eq, Structural)]
pub enum Vr {
    Sh,
    Da,
    Pn,
    Lo,
}

/// One attribute of a DICOM object: its tag, its value representation, and
/// its value coerced to a string.
#[derive(Debug)]
pub struct Element {
    pub tag: Tag,
    pub vr: Vr,
    pub value: String,
}

} // verus!
