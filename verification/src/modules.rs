//! Virtual module resolution. Filesystem- and native-library-based
//! resolution does not exist here: a logical module name is tried against
//! a fixed three-tier search path (working-directory-relative and two
//! conventional virtual roots) purely as a naming convention, and each
//! candidate path is answered only by the virtual filesystems currently
//! bound. Nothing ever touches real storage.

use vstd::prelude::*;
use vstd::string::StringExecFns;

use crate::ScriptError;

verus! {

/// A named virtual filesystem capability: the logical paths it can
/// answer, each with its content. The core registers and consults these
/// by name only; real storage is never reached.
pub struct VirtualFs {
    pub files: Vec<(String, String)>,
}

/// The content a filesystem serves for path `p`, if any; the first entry
/// for a path wins.
pub open spec fn fs_at(files: Seq<(String, String)>, p: Seq<char>) -> Option<Seq<char>>
    decreases files.len(),
{
    if files.len() == 0 {
        None
    } else if files[0].0@ == p {
        Some(files[0].1@)
    } else {
        fs_at(files.drop_first(), p)
    }
}

impl VirtualFs {
    pub open spec fn at(self, p: Seq<char>) -> Option<Seq<char>> {
        fs_at(self.files@, p)
    }

    pub fn new() -> (r: VirtualFs)
        ensures
            r.files@.len() == 0,
    {
        VirtualFs { files: Vec::new() }
    }

    /// Register `content` under logical path `path`.
    pub fn add_file(&mut self, path: &str, content: &str)
        ensures
            final(self).files@.len() == old(self).files@.len() + 1,
            final(self).files@.subrange(0, old(self).files@.len() as int) == old(self).files@,
            final(self).files@.last().0@ == path@,
            final(self).files@.last().1@ == content@,
    {
        self.files.push((path.to_owned(), content.to_owned()));
        proof {
            assert(final(self).files@.subrange(0, old(self).files@.len() as int) =~= old(
                self,
            ).files@);
        }
    }

    /// The content this filesystem serves for `p`, if any.
    pub fn get(&self, p: &String) -> (r: Option<String>)
        ensures
            match self.at(p@) {
                Some(c) => r matches Some(s) && s@ == c,
                None => r is None,
            },
    {
        let ghost full = self.files@;
        proof {
            assert(full.skip(0) =~= full);
        }
        let n = self.files.len();
        let mut j: usize = 0;
        while j < n
            invariant
                n == self.files@.len(),
                j <= n,
                full == self.files@,
                fs_at(full, p@) == fs_at(full.skip(j as int), p@),
            decreases n - j,
        {
            let entry = &self.files[j];
            if entry.0 == *p {
                return Some(entry.1.clone());
            }
            proof {
                assert(full.skip(j as int).drop_first() =~= full.skip(j as int + 1));
            }
            j = j + 1;
        }
        None
    }
}

/// The first of the three fixed search-path tiers: working-directory
/// relative.
pub open spec fn candidate0(name: Seq<char>) -> Seq<char> {
    "./"@ + name + ".lua"@
}

/// The second tier: the conventional data root.
pub open spec fn candidate1(name: Seq<char>) -> Seq<char> {
    "/data/"@ + name + ".lua"@
}

/// The third tier: the virtual filesystem root.
pub open spec fn candidate2(name: Seq<char>) -> Seq<char> {
    "/"@ + name + ".lua"@
}

/// The content the active bindings serve for path `p`: bindings are
/// consulted in registration order, the first that answers wins.
pub open spec fn find_in_bindings(bs: Seq<(String, VirtualFs)>, p: Seq<char>) -> Option<Seq<char>>
    decreases bs.len(),
{
    if bs.len() == 0 {
        None
    } else {
        match fs_at(bs[0].1.files@, p) {
            Some(c) => Some(c),
            None => find_in_bindings(bs.drop_first(), p),
        }
    }
}

/// Full resolution of a logical module name: each search-path tier in
/// order, each against every active binding in order.
pub open spec fn resolve_spec(bs: Seq<(String, VirtualFs)>, name: Seq<char>) -> Option<Seq<char>> {
    if find_in_bindings(bs, candidate0(name)) is Some {
        find_in_bindings(bs, candidate0(name))
    } else if find_in_bindings(bs, candidate1(name)) is Some {
        find_in_bindings(bs, candidate1(name))
    } else {
        find_in_bindings(bs, candidate2(name))
    }
}

/// Build one candidate path: `prefix` + `name` + ".lua".
fn make_candidate(prefix: &str, name: &str) -> (r: String)
    ensures
        r@ == prefix@ + name@ + ".lua"@,
{
    let mut s: String = prefix.to_owned();
    s.append(name);
    s.append(".lua");
    s
}

/// The first active binding that serves path `p`, in order.
fn find_binding(bs: &Vec<(String, VirtualFs)>, p: &String) -> (r: Option<String>)
    ensures
        match find_in_bindings(bs@, p@) {
            Some(c) => r matches Some(s) && s@ == c,
            None => r is None,
        },
{
    let ghost full = bs@;
    proof {
        assert(full.skip(0) =~= full);
    }
    let n = bs.len();
    let mut j: usize = 0;
    while j < n
        invariant
            n == bs@.len(),
            j <= n,
            full == bs@,
            find_in_bindings(full, p@) == find_in_bindings(full.skip(j as int), p@),
        decreases n - j,
    {
        let entry = &bs[j];
        let hit = entry.1.get(p);
        if let Some(s) = hit {
            return Some(s);
        }
        proof {
            assert(full.skip(j as int).drop_first() =~= full.skip(j as int + 1));
        }
        j = j + 1;
    }
    None
}

/// Resolve a logical module name against the active bindings. On failure
/// the error carries every candidate path that was tried, in search-path
/// order.
pub fn resolve_module(bs: &Vec<(String, VirtualFs)>, name: &str) -> (r: Result<
    String,
    ScriptError,
>)
    ensures
        match resolve_spec(bs@, name@) {
            Some(c) => r matches Ok(s) && s@ == c,
            None => (r matches Err(ScriptError::ModuleNotFound { tried }) && tried@.len() == 3
                && tried@[0]@ == candidate0(name@) && tried@[1]@ == candidate1(name@)
                && tried@[2]@ == candidate2(name@)),
        },
{
    let c0 = make_candidate("./", name);
    if let Some(s) = find_binding(bs, &c0) {
        return Ok(s);
    }
    let c1 = make_candidate("/data/", name);
    if let Some(s) = find_binding(bs, &c1) {
        return Ok(s);
    }
    let c2 = make_candidate("/", name);
    if let Some(s) = find_binding(bs, &c2) {
        return Ok(s);
    }
    let mut tried: Vec<String> = Vec::new();
    tried.push(c0);
    tried.push(c1);
    tried.push(c2);
    Err(ScriptError::ModuleNotFound { tried })
}

} // verus!
