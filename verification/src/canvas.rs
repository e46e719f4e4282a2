//! The regions of the canvas, as far as their identity and content go. Where
//! a region lies and how large it is belongs to the painting code.

use vstd::prelude::*;
use vstd::string::*;

verus! {

/// What a region contains.
pub enum RegionContent {
    Empty,
    Text { content: String },
    Facet { name: String },
}

/// A region of the canvas: its id and what it contains.
pub struct Region {
    pub id: u64,
    pub content: RegionContent,
}

/// The regions of a canvas, in the order they were added.
pub struct Canvas {
    regions: Vec<Region>,
    next_id: u64,
}

/// The text that a fresh canvas shows.
pub open spec fn welcome_spec() -> Seq<char> {
    "Welcome to Aether.\n\nPress ⌘+Space to open the Omni-bar.\nType to search or command.\n\nThe future of computing is intent-driven."@
}

impl View for Canvas {
    type V = Seq<Region>;

    closed spec fn view(&self) -> Seq<Region> {
        self.regions@
    }
}

impl Canvas {
    /// The id that the next region gets.
    pub closed spec fn next_id(&self) -> u64 {
        self.next_id
    }

    /// The regions have the ids from 1 on, in the order they were added.
    pub open spec fn wf(&self) -> bool {
        &&& self.next_id() == self@.len() + 1
        &&& forall|i: int| 0 <= i < self@.len() ==> (#[trigger] self@[i]).id == i + 1
    }

    /// A canvas with one region, which holds the welcome text.
    pub fn new() -> (c: Canvas)
        ensures
            c.wf(),
            c@.len() == 1,
            c@[0].content matches RegionContent::Text { content } && content@ == welcome_spec(),
    {
        let mut c = Canvas { regions: Vec::new(), next_id: 1 };
        c.add_region(
            RegionContent::Text {
                content: String::from_str(
                    "Welcome to Aether.\n\nPress ⌘+Space to open the Omni-bar.\nType to search or command.\n\nThe future of computing is intent-driven.",
                ),
            },
        );
        c
    }

    /// Adds a region and returns the id it was given.
    pub fn add_region(&mut self, content: RegionContent) -> (id: u64)
        requires
            old(self).wf(),
            old(self).next_id() < u64::MAX,
        ensures
            id == old(self).next_id(),
            final(self)@ == old(self)@.push(Region { id, content }),
            final(self).next_id() == id + 1,
            final(self).wf(),
    {
        let id: u64 = self.next_id;
        self.next_id = self.next_id + 1;
        self.regions.push(Region { id, content });
        id
    }

    /// How many regions there are.
    pub fn len(&self) -> (n: usize)
        ensures
            n == self@.len(),
    {
        self.regions.len()
    }

    /// The region with the id, if there is one.
    pub fn region(&self, id: u64) -> (r: Option<&Region>)
        requires
            self.wf(),
        ensures
            r is Some <==> 1 <= id <= self@.len(),
            r matches Some(found) ==> *found == self@[id - 1],
    {
        if id >= 1 && id - 1 < self.regions.len() as u64 {
            Some(&self.regions[(id - 1) as usize])
        } else {
            None
        }
    }
}

} // verus!
