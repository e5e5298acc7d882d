//! The lower-level resources that Mutter reports through `GetResources`.

use vstd::prelude::*;

use crate::search::{first_index, lemma_first_index};
use crate::text::str_eq;

verus! {

/// A CRTC: a portion of the compositor coordinate space.
#[derive(Debug, Clone)]
pub struct Crtc {
    pub id: u32,
    pub winsys_id: i64,
    pub x: i32,
    pub y: i32,
    pub width: i32,
    pub height: i32,
    pub current_mode: i32,
    pub current_transform: u32,
    pub transforms: Vec<u32>,
}

/// A connected physical screen.
#[derive(Debug, Clone)]
pub struct Output {
    pub id: u32,
    pub winsys_id: i64,
    pub current_crtc: i32,
    pub possible_crtcs: Vec<u32>,
    pub name: String,
    pub modes: Vec<u32>,
    pub clones: Vec<u32>,
}

/// A hardware mode. `frequency` is an `f64` bit pattern.
#[derive(Debug, Clone)]
pub struct Mode {
    pub id: u32,
    pub winsys_id: i64,
    pub width: u32,
    pub height: u32,
    pub frequency: u64,
    pub flags: u32,
}

#[derive(Debug, Clone)]
pub struct Resources {
    pub serial: u32,
    pub crtcs: Vec<Crtc>,
    pub outputs: Vec<Output>,
    pub modes: Vec<Mode>,
    pub max_screen_width: i32,
    pub max_screen_height: i32,
}

impl Resources {
    /// Index of the first output named `name` (the number of outputs where there is none).
    pub open spec fn output_index(&self, name: Seq<char>) -> int {
        first_index(self.outputs@.len(), |i: int| self.outputs@[i].name@ == name)
    }

    /// Index of the first CRTC with id `id` (the number of CRTCs where there is none).
    pub open spec fn crtc_index(&self, id: u32) -> int {
        first_index(self.crtcs@.len(), |i: int| self.crtcs@[i].id == id)
    }

    /// The first output named `name`.
    pub fn output_for_connector(&self, name: &str) -> (r: Option<&Output>)
        ensures
            r is None <==> self.output_index(name@) == self.outputs@.len(),
            r matches Some(o) ==> *o == self.outputs@[self.output_index(name@)],
    {
        let ghost pred = |i: int| self.outputs@[i].name@ == name@;
        let mut i: usize = 0;
        while i < self.outputs.len()
            invariant
                0 <= i <= self.outputs@.len(),
                pred == (|i: int| self.outputs@[i].name@ == name@),
                forall|j: int| 0 <= j < i ==> !#[trigger] pred(j),
            decreases self.outputs@.len() - i,
        {
            if str_eq(self.outputs[i].name.as_str(), name) {
                proof {
                    lemma_first_index(self.outputs@.len(), pred, i as int);
                }
                return Some(&self.outputs[i]);
            }
            i = i + 1;
        }
        proof {
            lemma_first_index(self.outputs@.len(), pred, i as int);
        }
        None
    }

    /// The first CRTC with id `id`.
    pub fn crtc_by_id(&self, id: u32) -> (r: Option<&Crtc>)
        ensures
            r is None <==> self.crtc_index(id) == self.crtcs@.len(),
            r matches Some(c) ==> *c == self.crtcs@[self.crtc_index(id)],
    {
        let ghost pred = |i: int| self.crtcs@[i].id == id;
        let mut i: usize = 0;
        while i < self.crtcs.len()
            invariant
                0 <= i <= self.crtcs@.len(),
                pred == (|i: int| self.crtcs@[i].id == id),
                forall|j: int| 0 <= j < i ==> !#[trigger] pred(j),
            decreases self.crtcs@.len() - i,
        {
            if self.crtcs[i].id == id {
                proof {
                    lemma_first_index(self.crtcs@.len(), pred, i as int);
                }
                return Some(&self.crtcs[i]);
            }
            i = i + 1;
        }
        proof {
            lemma_first_index(self.crtcs@.len(), pred, i as int);
        }
        None
    }
}

} // verus!
