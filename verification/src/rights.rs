use vstd::prelude::*;

verus! {

/// A send right, named by its port.
pub struct SendRight {
    name: u32,
}

/// A send-once right, named by its port; sending on it consumes it.
pub struct SendOnceRight {
    name: u32,
}

/// A receive right, named by its port.
pub struct RecvRight {
    name: u32,
}

impl View for SendRight {
    type V = u32;

    closed spec fn view(&self) -> u32 {
        self.name
    }
}

impl View for SendOnceRight {
    type V = u32;

    closed spec fn view(&self) -> u32 {
        self.name
    }
}

impl View for RecvRight {
    type V = u32;

    closed spec fn view(&self) -> u32 {
        self.name
    }
}

impl SendRight {
    /// Takes ownership of the right that `name` denotes.
    pub fn from_raw(name: u32) -> (r: Self)
        ensures
            r@ == name,
    {
        SendRight { name }
    }

    /// The port name, keeping the right.
    pub fn as_raw(&self) -> (r: u32)
        ensures
            r == self@,
    {
        self.name
    }

    /// The port name, giving up ownership of the right.
    pub fn into_raw(self) -> (r: u32)
        ensures
            r == self@,
    {
        self.name
    }
}

impl SendOnceRight {
    /// Takes ownership of the right that `name` denotes.
    pub fn from_raw(name: u32) -> (r: Self)
        ensures
            r@ == name,
    {
        SendOnceRight { name }
    }

    /// The port name, keeping the right.
    pub fn as_raw(&self) -> (r: u32)
        ensures
            r == self@,
    {
        self.name
    }

    /// The port name, giving up ownership of the right.
    pub fn into_raw(self) -> (r: u32)
        ensures
            r == self@,
    {
        self.name
    }
}

impl RecvRight {
    /// Takes ownership of the right that `name` denotes.
    pub fn from_raw(name: u32) -> (r: Self)
        ensures
            r@ == name,
    {
        RecvRight { name }
    }

    /// The port name, keeping the right.
    pub fn as_raw(&self) -> (r: u32)
        ensures
            r == self@,
    {
        self.name
    }
}

} // verus!
