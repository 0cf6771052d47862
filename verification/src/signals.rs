//! Signals: a value with subscribers that are told of every value it takes.

use vstd::prelude::*;

verus! {

/// Every subscriber of this kind takes every value.
pub open spec fn unconditional<T, F: FnMut(T)>() -> bool {
    forall|subscriber: F, value: T| call_requires(subscriber, (value,))
}

/// `subscriber` was called on a clone of `value`, and came back.
pub open spec fn told<T: Clone, F: FnMut(T)>(subscriber: F, value: T) -> bool {
    exists|given: T| cloned(value, given) && call_ensures(subscriber, (given,), ())
}

/// A value with its subscribers, oldest first.
pub struct Signal<T, F> {
    value: T,
    subscribers: Vec<F>,
}

impl<T: Clone, F: FnMut(T)> Signal<T, F> {
    /// The value that the signal holds.
    pub closed spec fn value(&self) -> T {
        self.value
    }

    /// The subscribers as they stand, oldest first.
    pub closed spec fn subscribers(&self) -> Seq<F> {
        self.subscribers@
    }

    /// The number of subscribers.
    pub open spec fn subscribed(&self) -> nat {
        self.subscribers().len()
    }

    pub fn new(value: T) -> (signal: Self)
        ensures
            signal.value() == value,
            signal.subscribed() == 0,
    {
        Signal { value, subscribers: Vec::new() }
    }

    /// A clone of the value that the signal holds.
    pub fn get(&self) -> (value: T)
        ensures
            cloned(self.value(), value),
    {
        self.value.clone()
    }

    /// Stores `new_value`, then tells every subscriber of it, oldest first.
    pub fn set(&mut self, new_value: T)
        requires
            unconditional::<T, F>(),
        ensures
            final(self).value() == new_value,
            final(self).subscribed() == old(self).subscribed(),
            forall|i: int|
                0 <= i < old(self).subscribed() ==> told(
                    #[trigger] old(self).subscribers()[i],
                    new_value,
                ),
    {
        self.value = new_value;
        let mut waiting: Vec<F> = Vec::new();
        std::mem::swap(&mut waiting, &mut self.subscribers);
        let mut done: Vec<F> = Vec::new();
        for subscriber in it: waiting
            invariant
                unconditional::<T, F>(),
                it.seq() == old(self).subscribers(),
                done@.len() == it.index(),
                self.value == new_value,
                forall|k: int|
                    0 <= k < it.index() ==> told(
                        #[trigger] old(self).subscribers()[k],
                        new_value,
                    ),
        {
            let mut subscriber: F = subscriber;
            let given: T = self.value.clone();
            let ghost before = subscriber;
            subscriber(given);
            assert(cloned(new_value, given) && call_ensures(before, (given,), ()));
            done.push(subscriber);
        }
        self.subscribers = done;
    }

    /// Subscribes `cb`: it is told of the present value at once, and of every later one.
    pub fn on(&mut self, cb: F)
        requires
            unconditional::<T, F>(),
        ensures
            final(self).value() == old(self).value(),
            final(self).subscribed() == old(self).subscribed() + 1,
            told(cb, old(self).value()),
            forall|i: int|
                0 <= i < old(self).subscribed() ==> #[trigger] final(self).subscribers()[i]
                    == old(self).subscribers()[i],
    {
        let mut subscriber: F = cb;
        let given: T = self.value.clone();
        subscriber(given);
        assert(cloned(self.value, given) && call_ensures(cb, (given,), ()));
        self.subscribers.push(subscriber);
    }
}

} // verus!
