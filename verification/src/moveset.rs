//! A fixed-length record of recent moves. Inserting at either end
//! shifts the rest one place toward the other end, dropping what falls
//! off: the record never grows.

use vstd::prelude::*;

use crate::text::all_ascii;
use crate::text::bytes_to_string;

verus! {

/// The recorded moves, oldest to newest, one byte each.
pub struct Moveset {
    pub moves: Vec<u8>,
}

impl Moveset {
    /// Put `i` in front: every move shifts one place toward the back
    /// and the last one is dropped.
    pub fn insert_front(&mut self, i: u8)
        requires
            old(self).moves@.len() >= 1,
        ensures
            final(self).moves@ == seq![i] + old(self).moves@.drop_last(),
    {
        let len = self.moves.len();
        let mut k = len - 1;
        while k > 0
            invariant
                len == self.moves@.len(),
                1 <= len,
                k < len,
                forall|j: int| 0 <= j <= k ==> self.moves@[j] == old(self).moves@[j],
                forall|j: int| k < j < len ==> self.moves@[j] == old(self).moves@[j - 1],
            decreases k,
        {
            let v = self.moves[k - 1];
            self.moves.set(k, v);
            k = k - 1;
        }
        self.moves.set(0, i);
        proof {
            assert(self.moves@ =~= seq![i] + old(self).moves@.drop_last());
        }
    }

    /// Put `i` at the back: every move shifts one place toward the
    /// front and the first one is dropped.
    pub fn insert_back(&mut self, i: u8)
        requires
            old(self).moves@.len() >= 1,
        ensures
            final(self).moves@ == old(self).moves@.drop_first().push(i),
    {
        let len = self.moves.len();
        let mut k: usize = 0;
        while k + 1 < len
            invariant
                len == self.moves@.len(),
                1 <= len,
                k < len,
                forall|j: int| 0 <= j < k ==> self.moves@[j] == old(self).moves@[j + 1],
                forall|j: int| k <= j < len ==> self.moves@[j] == old(self).moves@[j],
            decreases len - k,
        {
            let v = self.moves[k + 1];
            self.moves.set(k, v);
            k = k + 1;
        }
        self.moves.set(len - 1, i);
        proof {
            assert(self.moves@ =~= old(self).moves@.drop_first().push(i));
        }
    }

    /// The recorded moves as text, when every move byte is ASCII.
    pub fn render(&self) -> (r: Option<String>)
        ensures
            all_ascii(self.moves@) ==> (r matches Some(s) && s@.len() == self.moves@.len()
                && forall|i: int|
                0 <= i < self.moves@.len() ==> s@[i] == self.moves@[i] as char),
    {
        let mut bytes: Vec<u8> = Vec::new();
        let n = self.moves.len();
        for k in 0..n
            invariant
                n == self.moves@.len(),
                bytes@ == self.moves@.take(k as int),
        {
            bytes.push(self.moves[k]);
            proof {
                assert(bytes@ =~= self.moves@.take(k as int + 1));
            }
        }
        proof {
            assert(bytes@ =~= self.moves@);
        }
        bytes_to_string(bytes)
    }
}

} // verus!
