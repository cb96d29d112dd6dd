//! The text destination that the printer writes into.

use vstd::prelude::*;
use vstd::string::{StrSliceExecFns, StringExecFns};

verus! {

/// `core::fmt::Error`, the value by which a destination reports that it refused a write.
///
/// The type is opaque here: such a value is only handed on to the caller.
#[verifier::external_type_specification]
#[verifier::external_body]
pub struct ExFmtError(core::fmt::Error);

/// `Clone::clone` of `core::fmt::Error`, a unit struct with a derived `Clone`: the clone is the
/// value itself.
pub assume_specification[ <core::fmt::Error as Clone>::clone ](e: &core::fmt::Error) -> (r:
    core::fmt::Error)
    ensures
        r == *e,
;

/// `Default::default` of `core::fmt::Error`, a unit struct with a derived `Default`: there is one
/// value of the type, and this is it.
pub assume_specification[ <core::fmt::Error as Default>::default ]() -> (r: core::fmt::Error)
;

/// `String::push` appends one character at the end of the string and changes nothing else.
pub assume_specification[ String::push ](s: &mut String, ch: char)
    ensures
        final(s)@ == old(s)@.push(ch),
;

/// An append-only destination for text.
///
/// A sink is modelled by the sequence of characters accepted so far. A write either succeeds and
/// appends exactly what was handed to it, or fails; nothing is known of the text after a failure.
pub trait Sink {
    /// Everything the sink has accepted so far.
    spec fn text(&self) -> Seq<char>;

    /// Whether writes to sinks of this type never fail.
    spec fn infallible() -> bool;

    /// Appends `s`.
    fn write_str(&mut self, s: &str) -> (r: Result<(), core::fmt::Error>)
        ensures
            r is Ok ==> final(self).text() == old(self).text() + s@,
            Self::infallible() ==> r is Ok,
    ;

    /// Appends the single character `c`.
    fn write_char(&mut self, c: char) -> (r: Result<(), core::fmt::Error>)
        ensures
            r is Ok ==> final(self).text() == old(self).text().push(c),
            Self::infallible() ==> r is Ok,
    ;
}

impl Sink for String {
    open spec fn text(&self) -> Seq<char> {
        self@
    }

    open spec fn infallible() -> bool {
        true
    }

    fn write_str(&mut self, s: &str) -> (r: Result<(), core::fmt::Error>) {
        self.append(s);
        Ok(())
    }

    fn write_char(&mut self, c: char) -> (r: Result<(), core::fmt::Error>) {
        self.push(c);
        Ok(())
    }
}

/// A borrowed sink is a sink: what is written through the reference arrives in the sink behind
/// it.
impl<'a, W: Sink> Sink for &'a mut W {
    open spec fn text(&self) -> Seq<char> {
        (**self).text()
    }

    open spec fn infallible() -> bool {
        W::infallible()
    }

    fn write_str(&mut self, s: &str) -> (r: Result<(), core::fmt::Error>)
        ensures
            *final(*final(self)) == *final(*old(self)),
    {
        (**self).write_str(s)
    }

    fn write_char(&mut self, c: char) -> (r: Result<(), core::fmt::Error>)
        ensures
            *final(*final(self)) == *final(*old(self)),
    {
        (**self).write_char(c)
    }
}

/// A string that takes a limited number of characters: a sink whose writes fail once the room is
/// used up.
pub struct BoundedString {
    /// What has been written.
    text: String,
    /// The number of characters that can still be written.
    room: usize,
}

impl BoundedString {
    /// What has been written.
    pub closed spec fn view(&self) -> Seq<char> {
        self.text@
    }

    /// The number of characters that can still be written.
    pub closed spec fn room(&self) -> nat {
        self.room as nat
    }

    /// Makes an empty string with room for `capacity` characters.
    pub fn new(capacity: usize) -> (r: Self)
        ensures
            r@ == Seq::<char>::empty(),
            r.room() == capacity,
    {
        BoundedString { text: String::new(), room: capacity }
    }

    /// Returns the number of characters that can still be written.
    pub fn remaining(&self) -> (r: usize)
        ensures
            r == self.room(),
    {
        self.room
    }

    /// Returns what has been written.
    pub fn as_str(&self) -> (r: &str)
        ensures
            r@ == self@,
    {
        self.text.as_str()
    }

    /// Gives up the string that has been written.
    pub fn into_string(self) -> (r: String)
        ensures
            r@ == self@,
    {
        self.text
    }
}

impl Sink for BoundedString {
    open spec fn text(&self) -> Seq<char> {
        self@
    }

    open spec fn infallible() -> bool {
        false
    }

    /// Appends `s` if there is room for all of it, and fails without writing otherwise.
    fn write_str(&mut self, s: &str) -> (r: Result<(), core::fmt::Error>)
        ensures
            r is Ok <==> s@.len() <= old(self).room(),
            r is Ok ==> final(self).room() == old(self).room() - s@.len(),
            r is Err ==> final(self)@ == old(self)@ && final(self).room() == old(self).room(),
    {
        let n = s.unicode_len();
        if n > self.room {
            return Err(core::fmt::Error::default());
        }
        self.room = self.room - n;
        self.text.append(s);
        Ok(())
    }

    /// Appends `c` if there is room for it, and fails without writing otherwise.
    fn write_char(&mut self, c: char) -> (r: Result<(), core::fmt::Error>)
        ensures
            r is Ok <==> old(self).room() > 0,
            r is Ok ==> final(self).room() == old(self).room() - 1,
            r is Err ==> final(self)@ == old(self)@ && final(self).room() == old(self).room(),
    {
        if self.room == 0 {
            return Err(core::fmt::Error::default());
        }
        self.room = self.room - 1;
        self.text.push(c);
        Ok(())
    }
}

} // verus!
