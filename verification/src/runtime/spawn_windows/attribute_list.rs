//! Process/Thread Attribute List.
//!
//! The attributes that a new process is created with: the handles that it may
//! inherit, and the AppContainer that it runs in.

use super::win32::{
    proc_thread_attribute_handle_list, proc_thread_attribute_security_capabilities,
};
use vstd::prelude::*;
use windows_sys::Win32::Security::SECURITY_CAPABILITIES;

verus! {

/// The attribute that lists the handles which the new process may inherit.
pub const PROC_THREAD_ATTRIBUTE_HANDLE_LIST: usize = 0x0002_0002;

/// The attribute that names the AppContainer and its capabilities.
pub const PROC_THREAD_ATTRIBUTE_SECURITY_CAPABILITIES: usize = 0x0002_0009;

pub trait ThreadAttribute {
    /// True for an attribute that the system takes.
    spec fn is_valid(&self) -> bool;

    fn valid(&self) -> (r: bool)
        ensures
            r == self.is_valid(),
    ;

    /// The number under which the system knows the attribute.
    fn attribute(&self) -> usize;

    /// The size of the attribute's value in bytes.
    fn cb_size(&self) -> usize;
}

/// The handles that may cross into the new process.
pub struct ThreadAttributeHandles {
    pub handles: Vec<usize>,
}

/// The AppContainer of the new process, with as many capabilities as are
/// named: none.
pub struct ThreadAttributeSecurityCapabilities {
    pub app_container_sid: usize,
    pub capability_count: u32,
}

impl ThreadAttribute for ThreadAttributeHandles {
    /// Windows does not take a list without a handle.
    open spec fn is_valid(&self) -> bool {
        self.handles@.len() > 0
    }

    fn valid(&self) -> (r: bool) {
        self.handles.len() > 0
    }

    fn attribute(&self) -> (a: usize)
        ensures
            a == PROC_THREAD_ATTRIBUTE_HANDLE_LIST,
    {
        proc_thread_attribute_handle_list()
    }

    /// One handle is as wide as a pointer.
    fn cb_size(&self) -> (size: usize)
        ensures
            size == (if self.handles@.len() * vstd::layout::size_of::<usize>() <= usize::MAX {
                self.handles@.len() * vstd::layout::size_of::<usize>()
            } else {
                usize::MAX as nat
            }),
    {
        match self.handles.len().checked_mul(core::mem::size_of::<usize>()) {
            Some(size) => size,
            None => usize::MAX,
        }
    }
}

impl ThreadAttribute for ThreadAttributeSecurityCapabilities {
    open spec fn is_valid(&self) -> bool {
        true
    }

    fn valid(&self) -> (r: bool) {
        true
    }

    fn attribute(&self) -> (a: usize)
        ensures
            a == PROC_THREAD_ATTRIBUTE_SECURITY_CAPABILITIES,
    {
        proc_thread_attribute_security_capabilities()
    }

    /// The size that the value has in memory.
    fn cb_size(&self) -> (size: usize)
        ensures
            size == vstd::layout::size_of::<SECURITY_CAPABILITIES>(),
    {
        core::mem::size_of::<SECURITY_CAPABILITIES>()
    }
}

/// One attribute of a new process.
pub enum Attribute {
    Handles(ThreadAttributeHandles),
    SecurityCapabilities(ThreadAttributeSecurityCapabilities),
}

/// The size of an attribute's value in bytes: a pointer's width for each
/// handle, and for the capabilities the size that the value has in memory.
/// A size that cannot be counted is given as the greatest number there is.
pub open spec fn value_size(attribute: Attribute) -> nat {
    match attribute {
        Attribute::Handles(h) => h.handles@.len() * vstd::layout::size_of::<usize>(),
        Attribute::SecurityCapabilities(_) => vstd::layout::size_of::<SECURITY_CAPABILITIES>(),
    }
}

impl ThreadAttribute for Attribute {
    open spec fn is_valid(&self) -> bool {
        match self {
            Attribute::Handles(h) => h.is_valid(),
            Attribute::SecurityCapabilities(c) => c.is_valid(),
        }
    }

    fn valid(&self) -> (r: bool) {
        match self {
            Attribute::Handles(h) => h.valid(),
            Attribute::SecurityCapabilities(c) => c.valid(),
        }
    }

    fn attribute(&self) -> (a: usize)
        ensures
            a == (match self {
                Attribute::Handles(_) => PROC_THREAD_ATTRIBUTE_HANDLE_LIST,
                Attribute::SecurityCapabilities(_) => PROC_THREAD_ATTRIBUTE_SECURITY_CAPABILITIES,
            }),
    {
        match self {
            Attribute::Handles(h) => h.attribute(),
            Attribute::SecurityCapabilities(c) => c.attribute(),
        }
    }

    fn cb_size(&self) -> (size: usize)
        ensures
            size == (if value_size(*self) <= usize::MAX {
                value_size(*self)
            } else {
                usize::MAX as nat
            }),
    {
        match self {
            Attribute::Handles(h) => h.cb_size(),
            Attribute::SecurityCapabilities(c) => c.cb_size(),
        }
    }
}

/// The attributes that go into the list of a new process.
pub struct ThreadAttributeList {
    attributes: Vec<Attribute>,
}

/// The places of the valid attributes among those given, in rising order.
pub open spec fn valid_places(attributes: Seq<Attribute>) -> Seq<int>
    decreases attributes.len(),
{
    if attributes.len() == 0 {
        Seq::empty()
    } else if attributes.last().is_valid() {
        valid_places(attributes.drop_last()).push(attributes.len() - 1)
    } else {
        valid_places(attributes.drop_last())
    }
}

impl ThreadAttributeList {
    /// The attributes of the list, in their order.
    pub closed spec fn entries(&self) -> Seq<Attribute> {
        self.attributes@
    }

    /// The list for the attributes given: the valid ones, in the order in
    /// which they were given.  Where none is valid there is no list to make.
    pub fn new(attributes: Vec<Attribute>) -> (list: ThreadAttributeList)
        ensures
            list.entries().len() == valid_places(attributes@).len(),
            forall|k: int|
                0 <= k < list.entries().len() ==> list.entries()[k] == attributes@[valid_places(
                    attributes@,
                )[k]],
    {
        let ghost given = attributes@;
        let mut attributes = attributes;
        let mut kept: Vec<Attribute> = Vec::new();
        // Walk the attributes from the last to the first, and turn the valid
        // ones round at the end.
        let mut backwards: Vec<Attribute> = Vec::new();
        while attributes.len() > 0
            invariant
                attributes@ == given.take(attributes@.len() as int),
                attributes@.len() <= given.len(),
                backwards@.len() + valid_places(attributes@).len() == valid_places(given).len(),
                forall|k: int|
                    0 <= k < backwards@.len() ==> backwards@[k] == given[valid_places(
                        given,
                    )[valid_places(given).len() - 1 - k]],
                forall|k: int|
                    0 <= k < valid_places(attributes@).len() ==> valid_places(attributes@)[k]
                        == valid_places(given)[k],
            decreases attributes@.len(),
        {
            let ghost before = attributes@;
            let last = attributes.pop().unwrap();
            proof {
                assert(attributes@ =~= before.drop_last());
                assert(attributes@ =~= given.take(attributes@.len() as int));
            }
            if last.valid() {
                backwards.push(last);
            }
        }
        proof {
            assert(valid_places(attributes@).len() == 0);
        }
        while backwards.len() > 0
            invariant
                kept@.len() + backwards@.len() == valid_places(given).len(),
                forall|k: int|
                    0 <= k < backwards@.len() ==> backwards@[k] == given[valid_places(
                        given,
                    )[valid_places(given).len() - 1 - k]],
                forall|k: int| 0 <= k < kept@.len() ==> kept@[k] == given[valid_places(given)[k]],
            decreases backwards@.len(),
        {
            let next = backwards.pop().unwrap();
            kept.push(next);
        }
        ThreadAttributeList { attributes: kept }
    }

    /// Tells whether there is a list to make: not where no attribute is
    /// valid.
    pub fn is_empty(&self) -> (r: bool)
        ensures
            r == (self.entries().len() == 0),
    {
        self.attributes.len() == 0
    }

    /// The attributes of the list.
    pub fn list(&self) -> (entries: &Vec<Attribute>)
        ensures
            entries@ == self.entries(),
    {
        &self.attributes
    }
}

} // verus!
