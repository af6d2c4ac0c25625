//! A value that is one of two things.

use vstd::prelude::*;

verus! {

/// Which of the two sides an `Either` holds.
#[derive(Debug, Clone)]
pub enum EitherVariant<T, U> {
    /// The first alternative.
    Left(T),
    /// The second alternative.
    Right(U),
}

/// A value that holds either a `T` or a `U`.
#[derive(Debug, Clone)]
pub struct Either<T, U> {
    /// The held alternative.
    pub val: EitherVariant<T, U>,
}

impl<T, U> Either<T, U> {
    /// Wraps a value of the first alternative.
    pub fn new_left(value: T) -> (e: Self)
        ensures
            e.val == EitherVariant::<T, U>::Left(value),
    {
        Self { val: EitherVariant::Left(value) }
    }

    /// Wraps a value of the second alternative.
    pub fn new_right(value: U) -> (e: Self)
        ensures
            e.val == EitherVariant::<T, U>::Right(value),
    {
        Self { val: EitherVariant::Right(value) }
    }

    /// Whether the first alternative is held.
    pub fn is_left(&self) -> (b: bool)
        ensures
            b == (self.val matches EitherVariant::Left(_)),
    {
        match self.val {
            EitherVariant::Left(_) => true,
            EitherVariant::Right(_) => false,
        }
    }

    /// Whether the second alternative is held.
    pub fn is_right(&self) -> (b: bool)
        ensures
            b == (self.val matches EitherVariant::Right(_)),
    {
        match self.val {
            EitherVariant::Left(_) => false,
            EitherVariant::Right(_) => true,
        }
    }

    /// The first alternative, if it is held.
    pub fn get_left(self) -> (r: Option<T>)
        ensures
            (match self.val {
                EitherVariant::Left(v) => r == Some(v),
                EitherVariant::Right(_) => r is None,
            }),
    {
        match self.val {
            EitherVariant::Left(value) => Some(value),
            EitherVariant::Right(_) => None,
        }
    }

    /// The second alternative, if it is held.
    pub fn get_right(self) -> (r: Option<U>)
        ensures
            (match self.val {
                EitherVariant::Left(_) => r is None,
                EitherVariant::Right(v) => r == Some(v),
            }),
    {
        match self.val {
            EitherVariant::Left(_) => None,
            EitherVariant::Right(value) => Some(value),
        }
    }

    /// The first alternative, if it is held.
    pub fn into_left(self) -> (r: Option<T>)
        ensures
            (match self.val {
                EitherVariant::Left(v) => r == Some(v),
                EitherVariant::Right(_) => r is None,
            }),
    {
        match self.val {
            EitherVariant::Left(value) => Some(value),
            EitherVariant::Right(_) => None,
        }
    }

    /// The second alternative, if it is held.
    pub fn into_right(self) -> (r: Option<U>)
        ensures
            (match self.val {
                EitherVariant::Left(_) => r is None,
                EitherVariant::Right(v) => r == Some(v),
            }),
    {
        match self.val {
            EitherVariant::Left(_) => None,
            EitherVariant::Right(value) => Some(value),
        }
    }

    /// The two alternatives as success and failure, in that order.
    pub fn into_result(self) -> (r: Result<T, U>)
        ensures
            (match self.val {
                EitherVariant::Left(v) => r == Ok::<T, U>(v),
                EitherVariant::Right(v) => r == Err::<T, U>(v),
            }),
    {
        match self.val {
            EitherVariant::Left(value) => Ok(value),
            EitherVariant::Right(value) => Err(value),
        }
    }

    /// The two alternatives as failure and success, in that order.
    pub fn into_result_reverse(self) -> (r: Result<U, T>)
        ensures
            (match self.val {
                EitherVariant::Left(v) => r == Err::<U, T>(v),
                EitherVariant::Right(v) => r == Ok::<U, T>(v),
            }),
    {
        match self.val {
            EitherVariant::Left(value) => Err(value),
            EitherVariant::Right(value) => Ok(value),
        }
    }
}

} // verus!
