//! The templates of the pages.

use vstd::prelude::*;

use crate::text::{chars_of, copy_range, str_eq, string_of};

verus! {

/// Whether a template is one of HTML, in which texts are escaped.
pub open spec fn html_template(name: Seq<char>) -> bool {
    name.len() >= 5 && name.skip(name.len() - 5) == ".html"@
}

/// Whether a template is one of HTML, in which texts are escaped.
pub fn is_html_template(name: &str) -> (r: bool)
    ensures
        r == html_template(name@),
{
    let cs: Vec<char> = chars_of(name);
    if cs.len() < 5 {
        return false;
    }
    let tail: Vec<char> = copy_range(&cs, cs.len() - 5, cs.len());
    assert(tail@ =~= name@.skip(name@.len() - 5));
    str_eq(string_of(tail.as_slice()).as_str(), ".html")
}

} // verus!
