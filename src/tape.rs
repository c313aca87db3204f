//! A tape without edges in either direction.
//!
//! The tape is two stacks: the cells left of the cursor and the cells from the
//! cursor rightwards. Both stacks keep their top, the cell nearest the cursor,
//! at the end. A stack that runs out stands for endless filler cells, and a
//! filler cell is made on demand when the cursor moves onto it.
use vstd::prelude::*;

verus! {

/// A value that a tape can hold: a fresh copy of it can be made.
pub trait TapeValue: View + Sized {
    fn duplicate(&self) -> (r: Self)
        ensures
            r@ == self@,
    ;
}

/// The mathematical tape: the two stacks, top last, and the filler value.
pub struct TapeModel<A> {
    /// Cells strictly left of the cursor, in tape order (nearest last).
    pub left: Seq<A>,
    /// The cursor cell and the cells right of it, in reverse tape order
    /// (the cursor cell last).
    pub right: Seq<A>,
    /// The value of every cell that was never stored.
    pub filler: A,
}

impl<A> TapeModel<A> {
    /// A tape whose cells from the cursor on are `cells`, then filler; left of the cursor, filler.
    pub open spec fn from_cells(cells: Seq<A>, filler: A) -> TapeModel<A> {
        TapeModel { left: Seq::empty(), right: cells.reverse(), filler }
    }

    /// The value of the cell `i` places right of the cursor (left where `i` is negative).
    pub open spec fn cell(self, i: int) -> A {
        if i >= 0 {
            if i < self.right.len() {
                self.right[self.right.len() - 1 - i]
            } else {
                self.filler
            }
        } else {
            if -i - 1 < self.left.len() {
                self.left[self.left.len() + i]
            } else {
                self.filler
            }
        }
    }

    /// The value under the cursor.
    pub open spec fn read(self) -> A {
        if self.right.len() == 0 {
            self.filler
        } else {
            self.right.last()
        }
    }

    /// The tape with the cursor cell replaced by `v`.
    pub open spec fn write(self, v: A) -> TapeModel<A> {
        TapeModel {
            left: self.left,
            right: if self.right.len() == 0 {
                seq![v]
            } else {
                self.right.update(self.right.len() - 1, v)
            },
            filler: self.filler,
        }
    }

    /// The tape with the cursor one cell further right.
    pub open spec fn move_right(self) -> TapeModel<A> {
        if self.right.len() == 0 {
            TapeModel { left: self.left.push(self.filler), right: self.right, filler: self.filler }
        } else {
            TapeModel {
                left: self.left.push(self.right.last()),
                right: self.right.drop_last(),
                filler: self.filler,
            }
        }
    }

    /// The tape with the cursor one cell further left.
    pub open spec fn move_left(self) -> TapeModel<A> {
        if self.left.len() == 0 {
            TapeModel { left: self.left, right: self.right.push(self.filler), filler: self.filler }
        } else {
            TapeModel {
                left: self.left.drop_last(),
                right: self.right.push(self.left.last()),
                filler: self.filler,
            }
        }
    }
}

/// A move right followed by a move left gives back the value under the cursor,
/// the stored cells left of the cursor, and the value of every cell of the
/// tape; the only change is that a filler cell may now be stored. The same
/// holds of a move left followed by a move right.
pub proof fn move_round_trip<A>(t: TapeModel<A>)
    ensures
        t.move_right().move_left().read() == t.read(),
        t.move_right().move_left().left == t.left,
        forall|i: int| #[trigger] t.move_right().move_left().cell(i) == t.cell(i),
        t.move_left().move_right().read() == t.read(),
        t.move_left().move_right().right == t.right,
        forall|i: int| #[trigger] t.move_left().move_right().cell(i) == t.cell(i),
{
    assert(t.move_right().move_left().left =~= t.left);
    assert(t.move_left().move_right().right =~= t.right);
}

/// The views of a sequence of tape values.
pub open spec fn views<T: View>(s: Seq<T>) -> Seq<T::V> {
    s.map_values(|x: T| x@)
}

/// A tape of `T` values.
///
/// Every operation takes the tape by value and hands back the tape that
/// results, so a tape value is never changed behind its holder's back.
pub struct Tape<T> {
    left: Vec<T>,
    right: Vec<T>,
    filler: T,
}

impl<T: TapeValue> View for Tape<T> {
    type V = TapeModel<T::V>;

    closed spec fn view(&self) -> TapeModel<T::V> {
        TapeModel { left: views(self.left@), right: views(self.right@), filler: self.filler@ }
    }
}

impl<T: TapeValue> Tape<T> {
    /// A tape on which every cell holds `filler`.
    pub fn new(filler: T) -> (r: Tape<T>)
        ensures
            r@ == (TapeModel::<T::V> { left: Seq::empty(), right: Seq::empty(), filler: filler@ }),
    {
        let r = Tape { left: Vec::new(), right: Vec::new(), filler };
        proof {
            assert(r@.left =~= Seq::empty());
            assert(r@.right =~= Seq::empty());
        }
        r
    }

    /// A tape that holds `cells` from the cursor rightwards and filler everywhere else.
    pub fn from_cells(cells: Vec<T>, filler: T) -> (r: Tape<T>)
        ensures
            r@ == TapeModel::from_cells(views(cells@), filler@),
    {
        let ghost orig = cells@;
        let n = cells.len();
        let mut cells = cells;
        let mut right: Vec<T> = Vec::new();
        while cells.len() > 0
            invariant
                n == orig.len(),
                cells.len() <= n,
                cells@ == orig.subrange(0, cells.len() as int),
                views(right@) == views(orig.subrange(cells.len() as int, n as int)).reverse(),
            decreases cells.len(),
        {
            let ghost k = cells.len() as int;
            let v = cells.pop().unwrap();
            proof {
                assert(v == orig[k - 1]);
            }
            let ghost before = views(right@);
            right.push(v);
            proof {
                assert(cells@ =~= orig.subrange(0, k - 1));
                let longer = views(orig.subrange(k - 1, n as int));
                let shorter = views(orig.subrange(k, n as int));
                assert(views(right@) =~= before.push(v@));
                assert(longer =~= seq![v@] + shorter);
                assert(longer.reverse() =~= shorter.reverse().push(v@));
                assert(views(right@) =~= views(orig.subrange(k - 1, n as int)).reverse());
            }
        }
        let r = Tape { left: Vec::new(), right, filler };
        proof {
            assert(orig.subrange(0, n as int) =~= orig);
            assert(r@.left =~= Seq::empty());
        }
        r
    }

    /// The value under the cursor.
    pub fn read(&self) -> (r: &T)
        ensures
            r@ == self@.read(),
    {
        let n = self.right.len();
        if n == 0 {
            &self.filler
        } else {
            &self.right[n - 1]
        }
    }

    /// The tape with the cursor cell replaced by `v`; the cells left of the cursor stay as they are.
    pub fn write(self, v: T) -> (r: Tape<T>)
        ensures
            r@ == self@.write(v@),
    {
        let ghost before = self@;
        let Tape { left, mut right, filler } = self;
        if right.len() == 0 {
            right.push(v);
        } else {
            let n = right.len();
            right.set(n - 1, v);
        }
        let r = Tape { left, right, filler };
        proof {
            assert(r@.right =~= before.write(v@).right);
        }
        r
    }

    /// The tape with the cursor one cell further right; a filler cell is made
    /// where no cell was stored.
    pub fn move_right(self) -> (r: Tape<T>)
        ensures
            r@ == self@.move_right(),
    {
        let ghost before = self@;
        let Tape { mut left, mut right, filler } = self;
        match right.pop() {
            Some(v) => left.push(v),
            None => left.push(filler.duplicate()),
        }
        let r = Tape { left, right, filler };
        proof {
            assert(r@.left =~= before.move_right().left);
            assert(r@.right =~= before.move_right().right);
        }
        r
    }

    /// The tape with the cursor one cell further left; a filler cell is made
    /// where no cell was stored.
    pub fn move_left(self) -> (r: Tape<T>)
        ensures
            r@ == self@.move_left(),
    {
        let ghost before = self@;
        let Tape { mut left, mut right, filler } = self;
        match left.pop() {
            Some(v) => right.push(v),
            None => right.push(filler.duplicate()),
        }
        let r = Tape { left, right, filler };
        proof {
            assert(r@.left =~= before.move_left().left);
            assert(r@.right =~= before.move_left().right);
        }
        r
    }

    /// The stored cells left of the cursor, in tape order.
    pub fn into_left_cells(self) -> (r: Vec<T>)
        ensures
            views(r@) == self@.left,
    {
        self.left
    }
}

} // verus!
