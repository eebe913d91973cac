//! A trivial counter: the state behind the graphical front-end's demo view.

use vstd::prelude::*;

verus! {

#[derive(Debug, Clone, Copy, Default)]
pub struct Counter {
    pub value: i64,
}

#[derive(Debug, Clone, Copy, PartialEq, Eq, Structural)]
pub enum Message {
    Increment,
    Decrement,
}

impl Counter {
    /// Steps the counter up or down by one.
    pub fn update(&mut self, message: Message)
        requires
            message == Message::Increment ==> old(self).value < i64::MAX,
            message == Message::Decrement ==> old(self).value > i64::MIN,
        ensures
            final(self).value == old(self).value + if message == Message::Increment {
                1int
            } else {
                -1int
            },
    {
        match message {
            Message::Increment => self.value = self.value + 1,
            Message::Decrement => self.value = self.value - 1,
        }
    }
}

} // verus!
