//! Text that must not outlive its use: passwords and typed-in secrets, wiped with the
//! `zeroize` crate when they are replaced.
use vstd::prelude::*;

use zeroize::Zeroize;

verus! {

/// Wipes a string with `zeroize`'s `Zeroize` for `String`, which zeroes its bytes and then
/// clears it; the contract states that the string is empty afterwards.
#[verifier::external_body]
pub(crate) fn wipe(s: &mut String)
    ensures
        final(s)@ == Seq::<char>::empty(),
{
    s.zeroize();
}

/// A password as typed; replaced text is wiped.
pub struct Password {
    secret: String,
}

impl View for Password {
    type V = Seq<char>;

    closed spec fn view(&self) -> Seq<char> {
        self.secret@
    }
}

impl Password {
    pub fn new() -> (r: Self)
        ensures
            r@ == Seq::<char>::empty(),
    {
        Password { secret: String::new() }
    }

    pub fn clear(&mut self)
        ensures
            final(self)@ == Seq::<char>::empty(),
    {
        wipe(&mut self.secret);
    }

    pub fn push_str(&mut self, s: &str)
        ensures
            final(self)@ == old(self)@ + s@,
    {
        self.secret.append(s);
    }

    pub fn as_str(&self) -> (r: &str)
        ensures
            r@ == self@,
    {
        self.secret.as_str()
    }

    pub fn is_empty(&self) -> (r: bool)
        ensures
            r == (self@.len() == 0),
    {
        self.secret.as_str().is_empty()
    }

    /// Replaces the password by the text of `input`, then wipes `input`.
    pub fn replace_with(&mut self, input: &mut String)
        ensures
            final(self)@ == old(input)@,
            final(input)@ == Seq::<char>::empty(),
    {
        self.clear();
        self.push_str(input.as_str());
        assert(self@ =~= old(input)@);
        wipe(input);
    }
}

impl Clone for Password {
    fn clone(&self) -> (r: Self)
        ensures
            r@ == self@,
    {
        Password { secret: self.secret.clone() }
    }
}

} // verus!
