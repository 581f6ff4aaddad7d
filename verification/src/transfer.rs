use vstd::prelude::*;
use vstd::string::*;
use vstd::utf8::encode_utf8;

verus! {

/// Creates a string and moves it to the caller, who becomes its owner.
pub fn gives_ownership() -> (s: String)
    ensures
        s@ == "hello"@,
{
    String::from_str("hello")
}

/// Takes ownership of `s` and moves it straight back to the caller.
pub fn takes_and_gives_back(s: String) -> (back: String)
    ensures
        back == s,
{
    s
}

/// The length of `s` in bytes, computed through a shared borrow that leaves
/// the caller's string valid.
pub fn calculate_length(s: &String) -> (length: usize)
    ensures
        length == encode_utf8(s@).len() as usize,
{
    s.as_str().len()
}

/// Appends `", world"` to the caller's string through an exclusive borrow.
pub fn change(s: &mut String)
    ensures
        final(s)@ == old(s)@ + ", world"@,
{
    s.append(", world");
}

} // verus!
