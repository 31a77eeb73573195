//! Selecting color-scheme files out of a raw directory listing: the
//! filesystem walk happens outside; this picks the `.json` entries and
//! strips the colors-directory prefix off their paths.
use crate::strutil::ends_with_chars;
use crate::strutil::has_prefix;
use crate::strutil::has_suffix;
use crate::strutil::starts_with_chars;
use vstd::prelude::*;
use vstd::string::StrSliceExecFns;

verus! {

/// A scheme's display name: its path with a leading `./colors/` stripped.
pub open spec fn scheme_name_of(p: Seq<char>) -> Seq<char> {
    if has_prefix(p, "./colors/"@) {
        p.skip("./colors/"@.len() as int)
    } else {
        p
    }
}

/// The scheme names a directory listing yields: one per `.json` entry, in
/// listing order, each with the colors-directory prefix stripped.
pub open spec fn schemes_of(paths: Seq<Seq<char>>) -> Seq<Seq<char>>
    decreases paths.len(),
{
    if paths.len() == 0 {
        Seq::empty()
    } else {
        let rest = schemes_of(paths.drop_last());
        if has_suffix(paths.last(), ".json"@) {
            rest.push(scheme_name_of(paths.last()))
        } else {
            rest
        }
    }
}

/// Picks the color-scheme files out of the raw listing of the colors
/// directory: the `.json` entries, their directory prefix stripped.
pub fn list_color_schemes(paths: &Vec<String>) -> (r: Vec<String>)
    ensures
        r@.map_values(|s: String| s@) == schemes_of(paths@.map_values(|s: String| s@)),
{
    let ghost views = |s: String| s@;
    let mut r: Vec<String> = Vec::new();
    let mut i: usize = 0;
    proof {
        assert(paths@.take(0).map_values(views) =~= Seq::<Seq<char>>::empty());
        assert(r@.map_values(views) =~= Seq::<Seq<char>>::empty());
    }
    while i < paths.len()
        invariant
            i <= paths@.len(),
            views == (|s: String| s@),
            r@.map_values(views) == schemes_of(paths@.take(i as int).map_values(views)),
        decreases paths@.len() - i,
    {
        let p = &paths[i];
        proof {
            assert(paths@.take(i + 1).map_values(views).drop_last() =~= paths@.take(
                i as int,
            ).map_values(views));
            assert(paths@.take(i + 1).map_values(views).last() == p@);
        }
        if ends_with_chars(p.as_str(), ".json") {
            let name = if starts_with_chars(p.as_str(), "./colors/") {
                let plen = "./colors/".unicode_len();
                let n = p.as_str().unicode_len();
                let stripped = p.as_str().substring_char(plen, n).to_owned();
                proof {
                    assert(stripped@ =~= scheme_name_of(p@));
                }
                stripped
            } else {
                p.clone()
            };
            r.push(name);
            proof {
                assert(r@.map_values(views) =~= r@.drop_last().map_values(views).push(
                    r@.last()@,
                ));
            }
        }
        i = i + 1;
    }
    proof {
        assert(paths@.take(paths@.len() as int) =~= paths@);
    }
    r
}

} // verus!
