//! Naming of output files.
use vstd::prelude::*;
use crate::text::push_char;

verus! {

broadcast use vstd::string::group_string_axioms;

/// The characters of `s` after its last `c`; all of `s` when it holds no `c`.
pub open spec fn after_last(s: Seq<char>, c: char) -> Seq<char>
    decreases s.len(),
{
    if s.len() == 0 {
        s
    } else if s.last() == c {
        Seq::empty()
    } else {
        after_last(s.drop_last(), c).push(s.last())
    }
}

/// The characters of `s` after its last `c`.
fn after_last_char(s: &str, c: char) -> (r: String)
    ensures
        r@ == after_last(s@, c),
{
    let mut part = String::new();
    for x in it: s.chars()
        invariant
            it.seq() == s@,
            part@ == after_last(s@.subrange(0, it.index() as int), c),
    {
        proof {
            let k = it.index() as int;
            assert(s@.subrange(0, k + 1).drop_last() =~= s@.subrange(0, k));
        }
        if x == c {
            part = String::new();
        } else {
            push_char(&mut part, x);
        }
    }
    proof {
        assert(s@.subrange(0, s@.len() as int) =~= s@);
    }
    part
}

/// The name of the file next to `name` with the given extension: the text
/// after the last `.` of the last `/`-separated part of `name`, followed by
/// `extension`.
pub fn new_extension(name: &str, extension: &str) -> (r: Result<String, &'static str>)
    ensures
        r matches Ok(s) && s@ == after_last(after_last(name@, '/'), '.') + extension@,
{
    let filename = after_last_char(name, '/');
    let mut new_name = after_last_char(filename.as_str(), '.');
    crate::text::push_text(&mut new_name, extension);
    Ok(new_name)
}

} // verus!
