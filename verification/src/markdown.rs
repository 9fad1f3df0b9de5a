use crate::text::chars_of;
use vstd::prelude::*;

verus! {

/// The extension `.md`.
pub open spec fn short_extension() -> Seq<char> {
    seq!['.', 'm', 'd']
}

/// The extension `.markdown`.
pub open spec fn long_extension() -> Seq<char> {
    seq!['.', 'm', 'a', 'r', 'k', 'd', 'o', 'w', 'n']
}

/// Whether a file of this name is a Markdown document to look at: its name
/// does not start with a dot, and ends in `.md` or in `.markdown`.
pub open spec fn names_markdown(name: Seq<char>) -> bool {
    &&& !(name.len() > 0 && name[0] == '.')
    &&& (short_extension().is_suffix_of(name) || long_extension().is_suffix_of(name))
}

/// Whether `v` ends with the characters of `suffix`.
fn ends_with(v: &Vec<char>, suffix: &Vec<char>) -> (yes: bool)
    ensures
        yes == suffix@.is_suffix_of(v@),
{
    if suffix.len() > v.len() {
        return false;
    }
    let shift = v.len() - suffix.len();
    let mut i: usize = 0;
    while i < suffix.len()
        invariant
            i <= suffix.len(),
            shift + suffix.len() == v.len(),
            forall|k: int| 0 <= k < i ==> suffix@[k] == v@[shift + k],
        decreases suffix.len() - i,
    {
        if suffix[i] != v[shift + i] {
            assert(v@.subrange(shift as int, v.len() as int)[i as int] != suffix@[i as int]);
            return false;
        }
        i = i + 1;
    }
    assert(suffix@ =~= v@.subrange(shift as int, v.len() as int));
    true
}

/// Whether a file of this name is a Markdown document to look at.
pub fn is_markdown(name: &str) -> (yes: bool)
    ensures
        yes == names_markdown(name@),
{
    let v = chars_of(name);
    if v.len() > 0 && v[0] == '.' {
        return false;
    }
    proof {
        reveal_strlit(".md");
        reveal_strlit(".markdown");
        assert(".md"@ =~= short_extension());
        assert(".markdown"@ =~= long_extension());
    }
    let short = chars_of(".md");
    let long = chars_of(".markdown");
    ends_with(&v, &short) || ends_with(&v, &long)
}

} // verus!
