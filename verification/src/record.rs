//! Records: values compared and copied through their mathematical models.
use vstd::prelude::*;

verus! {

/// A value that is known through its model.
pub trait Record: DeepView + Sized {
    /// A second value with the same model.
    fn copied(&self) -> (copy: Self)
        ensures
            copy.deep_view() == self.deep_view(),
    ;

    /// Whether both values have the same model.
    fn same(&self, other: &Self) -> (same: bool)
        ensures
            same == (self.deep_view() == other.deep_view()),
    ;
}

/// The model of a result.
pub open spec fn outcome<T: DeepView, E: DeepView>(result: Result<T, E>) -> Result<T::V, E::V> {
    match result {
        Ok(value) => Ok(value.deep_view()),
        Err(error) => Err(error.deep_view()),
    }
}

impl Record for String {
    fn copied(&self) -> (copy: Self) {
        self.clone()
    }

    fn same(&self, other: &Self) -> (same: bool) {
        *self == *other
    }
}

impl Record for u8 {
    fn copied(&self) -> (copy: Self) {
        *self
    }

    fn same(&self, other: &Self) -> (same: bool) {
        *self == *other
    }
}

impl Record for u32 {
    fn copied(&self) -> (copy: Self) {
        *self
    }

    fn same(&self, other: &Self) -> (same: bool) {
        *self == *other
    }
}

impl Record for u64 {
    fn copied(&self) -> (copy: Self) {
        *self
    }

    fn same(&self, other: &Self) -> (same: bool) {
        *self == *other
    }
}

impl Record for bool {
    fn copied(&self) -> (copy: Self) {
        *self
    }

    fn same(&self, other: &Self) -> (same: bool) {
        *self == *other
    }
}

impl<T: Record> Record for Option<T> {
    fn copied(&self) -> (copy: Self) {
        match self {
            Some(value) => Some(value.copied()),
            None => None,
        }
    }

    fn same(&self, other: &Self) -> (same: bool) {
        match (self, other) {
            (Some(left), Some(right)) => left.same(right),
            (None, None) => true,
            _ => false,
        }
    }
}

impl<T: Record> Record for Vec<T> {
    fn copied(&self) -> (copy: Self) {
        let mut copy: Vec<T> = Vec::new();
        let mut at: usize = 0;
        while at < self.len()
            invariant
                at <= self.len(),
                copy.len() == at,
                forall|i: int| 0 <= i < at ==> (#[trigger] copy[i]).deep_view() == self[i].deep_view(),
            decreases self.len() - at,
        {
            copy.push(self[at].copied());
            at += 1;
        }
        assert(copy.deep_view() =~= self.deep_view());
        copy
    }

    fn same(&self, other: &Self) -> (same: bool) {
        if self.len() != other.len() {
            assert(self.deep_view().len() != other.deep_view().len());
            return false;
        }
        let mut at: usize = 0;
        while at < self.len()
            invariant
                at <= self.len(),
                self.len() == other.len(),
                forall|i: int| 0 <= i < at ==> (#[trigger] self[i]).deep_view() == other[i].deep_view(),
            decreases self.len() - at,
        {
            if !self[at].same(&other[at]) {
                assert(self.deep_view()[at as int] != other.deep_view()[at as int]);
                return false;
            }
            at += 1;
        }
        assert(self.deep_view() =~= other.deep_view());
        true
    }
}

}
