//! Paths as text, with `/` between their parts.

use vstd::prelude::*;
use crate::text::{cat2, cat3, parts_make_a_whole, split, split_text};

verus! {

/// A path that begins at the root.
pub open spec fn absolute(p: Seq<char>) -> bool {
    p.len() > 0 && p[0] == '/'
}

/// Whether a path begins at the root.
pub fn is_absolute(p: &str) -> (b: bool)
    ensures
        b == absolute(p@),
{
    !p.is_empty() && p.get_char(0) == '/'
}

/// A path below another; one that begins at the root stands for itself.
pub open spec fn below(base: Seq<char>, rel: Seq<char>) -> Seq<char> {
    if absolute(rel) {
        rel
    } else if base.len() == 0 || base.last() == '/' {
        base + rel
    } else {
        base + "/"@ + rel
    }
}

/// A path below another.
pub fn join_path(base: &str, rel: &str) -> (r: String)
    ensures
        r@ == below(base@, rel@),
{
    if is_absolute(rel) {
        return crate::text::text(rel);
    }
    if base.is_empty() || base.get_char(base.unicode_len() - 1) == '/' {
        return cat2(base, rel);
    }
    cat3(base, "/", rel)
}

/// A path leaves its directory: it begins at the root, or one of its parts goes up.
pub open spec fn leaves(p: Seq<char>) -> bool {
    absolute(p) || split(p, '/').contains(".."@)
}

/// Whether a path leaves its directory.
pub fn is_leaving(p: &str) -> (b: bool)
    ensures
        b == leaves(p@),
{
    if is_absolute(p) {
        return true;
    }
    let parts = split_text(p, '/');
    crate::text::lists(&parts, "..")
}

/// Where the program keeps its data.
#[derive(Debug, PartialEq, Eq)]
pub struct AppPaths {
    pub jobs_dir: String,
    pub markdown_output_dir: String,
    pub funasr_runtime_data_dir: String,
    pub config_file: String,
}

impl AppPaths {
    /// The places below a home directory.
    pub fn for_home(home: &str) -> (r: AppPaths)
        ensures
            ({
                let support = below(home@, "Library/Application Support/BiMyScribe"@);
                &&& r.jobs_dir@ == below(support, "Jobs"@)
                &&& r.markdown_output_dir@ == below(home@, "Documents/BiMyScribe"@)
                &&& r.funasr_runtime_data_dir@ == below(support, "Runtime"@)
                &&& r.config_file@ == below(support, "config.toml"@)
            }),
    {
        let support = join_path(home, "Library/Application Support/BiMyScribe");
        AppPaths {
            jobs_dir: join_path(support.as_str(), "Jobs"),
            markdown_output_dir: join_path(home, "Documents/BiMyScribe"),
            funasr_runtime_data_dir: join_path(support.as_str(), "Runtime"),
            config_file: join_path(support.as_str(), "config.toml"),
        }
    }
}

/// A relative path below another begins with it and ends with itself, with one slash between
/// them; a path from the root stays as it is.
pub proof fn a_path_is_below_its_base(base: Seq<char>, rel: Seq<char>)
    ensures
        rel.len() > 0 && rel[0] == '/' ==> below(base, rel) == rel,
        rel.len() == 0 || rel[0] != '/' ==> base.is_prefix_of(below(base, rel)) && rel.is_suffix_of(below(base, rel)),
        (rel.len() == 0 || rel[0] != '/') && base.len() > 0 ==> below(base, rel)[below(base, rel).len() - rel.len()
            - 1] == '/',
        (rel.len() == 0 || rel[0] != '/') ==> below(base, rel).len() <= base.len() + rel.len() + 1,
{
    reveal_strlit("/");
    let p = below(base, rel);
    if rel.len() == 0 || rel[0] != '/' {
        assert(p.subrange(0, base.len() as int) =~= base);
        assert(p.subrange((p.len() - rel.len()) as int, p.len() as int) =~= rel);
    }
}

/// A path that does not leave its directory begins at no root, and none of the parts between its
/// slashes leads upwards.
pub proof fn a_path_that_stays_leads_nowhere_else(p: Seq<char>)
    ensures
        !leaves(p) ==> (p.len() == 0 || p[0] != '/') && forall|i: int|
            0 <= i < split(p, '/').len() ==> #[trigger] split(p, '/')[i] != seq!['.', '.'],
        crate::text::joined(split(p, '/'), seq!['/']) == p,
{
    reveal_strlit("..");
    assert(".."@ =~= seq!['.', '.']);
    parts_make_a_whole(p, '/');
    if !leaves(p) {
        assert forall|i: int| 0 <= i < split(p, '/').len() implies #[trigger] split(p, '/')[i] != seq!['.', '.'] by {
            if split(p, '/')[i] == ".."@ {
                assert(split(p, '/').contains(".."@));
            }
        }
    }
}

} // verus!
