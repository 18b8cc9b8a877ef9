use vstd::prelude::*;

verus! {

/// A grid of values stored row-major in one vector.
pub struct Matrix<T> {
    data: Vec<T>,
    cols: usize,
}

impl<T: Copy> Matrix<T> {
    /// The values, row-major.
    pub closed spec fn view_data(&self) -> Seq<T> {
        self.data@
    }

    /// Columns per row.
    pub closed spec fn view_cols(&self) -> nat {
        self.cols as nat
    }

    /// A `cols` × `rows` grid with every value `default`.
    pub fn new(cols: usize, rows: usize, default: T) -> (r: Self)
        requires
            cols * rows <= usize::MAX,
        ensures
            r.view_cols() == cols,
            r.view_data() == Seq::new((cols * rows) as nat, |k: int| default),
    {
        let n = cols * rows;
        let mut data: Vec<T> = Vec::new();
        let mut i: usize = 0;
        while i < n
            invariant
                i <= n,
                data@ == Seq::new(i as nat, |k: int| default),
            decreases n - i,
        {
            data.push(default);
            i = i + 1;
            assert(data@ =~= Seq::new(i as nat, |k: int| default));
        }
        Matrix { data, cols }
    }

    /// The value at column `col` of row `row`, if the grid holds that position.
    pub fn get(&self, col: usize, row: usize) -> (r: Option<&T>)
        ensures
            ({
                let index = self.view_cols() * row + col;
                &&& index < self.view_data().len() ==> r == Some(&self.view_data()[index as int])
                &&& index >= self.view_data().len() ==> r is None
            }),
    {
        let len = self.data.len();
        let index = match self.cols.checked_mul(row) {
            Some(m) => match m.checked_add(col) {
                Some(i) => i,
                None => {
                    return None;
                },
            },
            None => {
                return None;
            },
        };
        if index < len {
            Some(&self.data[index])
        } else {
            None
        }
    }
}

/// A grid view of values held in a vector, row-major.
pub struct MatrixWrapper<T> {
    data: Vec<T>,
    cols: usize,
}

impl<T> MatrixWrapper<T> {
    /// The values, row-major.
    pub closed spec fn view_data(&self) -> Seq<T> {
        self.data@
    }

    /// Columns per row.
    pub closed spec fn view_cols(&self) -> nat {
        self.cols as nat
    }

    /// Views `data` as rows of `cols` values.
    pub fn wrap_vec(data: Vec<T>, cols: usize) -> (r: Self)
        ensures
            r.view_data() == data@,
            r.view_cols() == cols,
    {
        MatrixWrapper { data, cols }
    }

    /// The value at column `col` of row `row`, if the vector holds that position.
    pub fn get(&self, col: usize, row: usize) -> (r: Option<&T>)
        ensures
            ({
                let index = self.view_cols() * row + col;
                &&& index < self.view_data().len() ==> r == Some(&self.view_data()[index as int])
                &&& index >= self.view_data().len() ==> r is None
            }),
    {
        let len = self.data.len();
        let index = match self.cols.checked_mul(row) {
            Some(m) => match m.checked_add(col) {
                Some(i) => i,
                None => {
                    return None;
                },
            },
            None => {
                return None;
            },
        };
        if index < len {
            Some(&self.data[index])
        } else {
            None
        }
    }

    /// The wrapped vector.
    pub fn into_vec(self) -> (r: Vec<T>)
        ensures
            r@ == self.view_data(),
    {
        self.data
    }
}

/// Writing into a vector only where it has an element.
pub trait SafeVecUpdate<T> {
    /// Sets element `index` and returns true, or returns false when there is none.
    fn safe_update(&mut self, index: usize, value: T) -> bool;
}

impl<T> SafeVecUpdate<T> for Vec<T> {
    fn safe_update(&mut self, index: usize, value: T) -> bool {
        if index < self.len() {
            self.set(index, value);
            true
        } else {
            false
        }
    }
}

} // verus!
