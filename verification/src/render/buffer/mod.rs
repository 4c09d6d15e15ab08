//! Section-addressed buffers and the views handed out over them.

use vstd::prelude::*;

pub mod immutable;
pub mod layout;
pub mod partitioned;
pub mod tri;
pub mod view;

pub use immutable::ImmutableBuffer;
pub use layout::Layout;
pub use partitioned::PartitionedTriBuffer;
pub use tri::TriBuffer;
pub use view::View;
pub use view::ViewMut;

verus! {

/// One of the three rotating sections of a triple buffer.
///
/// Each section has a one-bit tag, so that several sections can be combined
/// with a bitwise OR into one lock word.
#[derive(Clone, Copy, Debug, PartialEq, Eq, PartialOrd, Ord, Structural)]
pub enum StorageSection {
    Front,
    Back,
    Spare,
}

/// Tag of [`StorageSection::Front`]: bit 0.
pub const FRONT_BYTE: u8 = 0b0000_0001;

/// Tag of [`StorageSection::Back`]: bit 3.
pub const BACK_BYTE: u8 = 0b0000_1000;

/// Tag of [`StorageSection::Spare`]: bit 6.
pub const SPARE_BYTE: u8 = 0b0100_0000;

impl StorageSection {
    /// The tag of this section.
    pub open spec fn tag(self) -> u8 {
        match self {
            StorageSection::Front => FRONT_BYTE,
            StorageSection::Back => BACK_BYTE,
            StorageSection::Spare => SPARE_BYTE,
        }
    }

    /// Whether `byte` is the tag of some section.
    pub open spec fn is_tag(byte: u8) -> bool {
        byte == FRONT_BYTE || byte == BACK_BYTE || byte == SPARE_BYTE
    }

    /// The section that follows this one in the rotation
    /// `Front -> Back -> Spare -> Front`.
    pub open spec fn successor(self) -> StorageSection {
        match self {
            StorageSection::Front => StorageSection::Back,
            StorageSection::Back => StorageSection::Spare,
            StorageSection::Spare => StorageSection::Front,
        }
    }

    /// Position of this section in a triple buffer.
    pub open spec fn index(self) -> int {
        match self {
            StorageSection::Front => 0,
            StorageSection::Back => 1,
            StorageSection::Spare => 2,
        }
    }

    /// The section whose tag is `byte`.
    pub fn from_byte(byte: u8) -> (section: Self)
        requires
            Self::is_tag(byte),
        ensures
            section.tag() == byte,
    {
        if byte == FRONT_BYTE {
            StorageSection::Front
        } else if byte == BACK_BYTE {
            StorageSection::Back
        } else {
            StorageSection::Spare
        }
    }

    /// The tag of this section, as stored in a lock word.
    pub fn as_byte(self) -> (byte: u8)
        ensures
            byte == self.tag(),
    {
        match self {
            StorageSection::Front => FRONT_BYTE,
            StorageSection::Back => BACK_BYTE,
            StorageSection::Spare => SPARE_BYTE,
        }
    }

    /// The section that follows this one in the rotation.
    pub fn next(self) -> (section: Self)
        ensures
            section == self.successor(),
    {
        match self {
            StorageSection::Front => StorageSection::Back,
            StorageSection::Back => StorageSection::Spare,
            StorageSection::Spare => StorageSection::Front,
        }
    }

    /// Move on to the section that follows this one in the rotation.
    pub fn advance(&mut self)
        ensures
            *final(self) == old(self).successor(),
    {
        *self = self.next();
    }

    /// The position of this section in a triple buffer.
    pub fn as_index(&self) -> (index: usize)
        ensures
            index == self.index(),
            index < 3,
    {
        match self {
            StorageSection::Front => 0,
            StorageSection::Back => 1,
            StorageSection::Spare => 2,
        }
    }
}

impl StorageSection {
    /// The section that is current after `steps` advances from this one.
    pub open spec fn advanced(self, steps: nat) -> StorageSection
        decreases steps,
    {
        if steps == 0 {
            self
        } else {
            self.advanced((steps - 1) as nat).successor()
        }
    }

    /// The section at position `index` of a triple buffer.
    pub open spec fn at(index: int) -> StorageSection {
        if index == 0 {
            StorageSection::Front
        } else if index == 1 {
            StorageSection::Back
        } else {
            StorageSection::Spare
        }
    }

    /// Advancing moves one position on and wraps around after the third:
    /// the rotation visits `Front`, `Back`, `Spare` in turn and skips none.
    pub proof fn lemma_rotation(self, steps: nat)
        ensures
            self.advanced(steps) == Self::at((self.index() + steps) % 3),
            self.advanced(steps).index() == (self.index() + steps) % 3,
        decreases steps,
    {
        if steps > 0 {
            self.lemma_rotation((steps - 1) as nat);
        }
    }

    /// From `Spare`, where every boundary starts, the advances lead to
    /// `Front`, then `Back`, then `Spare` again, and so on.
    pub proof fn lemma_rotation_from_spare(steps: nat)
        ensures
            StorageSection::Spare.advanced(steps) == (if steps % 3 == 0 {
                StorageSection::Spare
            } else if steps % 3 == 1 {
                StorageSection::Front
            } else {
                StorageSection::Back
            }),
    {
        StorageSection::Spare.lemma_rotation(steps);
    }

    /// The section that is written next is never the one that is current,
    /// nor is the one after it: three advances are needed to come back.
    pub proof fn lemma_successor_differs(self)
        ensures
            self.successor() != self,
            self.successor().successor() != self,
            self.successor().successor() != self.successor(),
            self.successor().successor().successor() == self,
    {
    }
}

/// How the elements of a buffer are set before its first use.
#[derive(Debug)]
#[verifier::reject_recursive_types(T)]
pub enum InitStrategy<T: Sized + Clone, F: Fn() -> T> {
    /// Every byte is cleared to zero.
    Zero,
    /// Every element is made by a call of the given function.
    FillWith(F),
}

} // verus!
