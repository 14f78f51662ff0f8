//! The Linux installer for the game extension: which bundled shared
//! objects to copy out of the extension archive, and how the game's
//! start script is patched so the loader picks them up (and unpatched
//! again). All file, archive and process work stays with the host; this
//! module decides, over plain bytes.

use vstd::prelude::*;
use vstd::slice::{slice_subrange, slice_to_vec};
use vstd::string::StringSliceAdditionalSpecFns;

verus! {

/// What `Regex::find` returns for `pattern` (multi-line or not) on
/// `hay`: the byte range of the leftmost match, if any.
pub uninterp spec fn re_find_spec(pattern: Seq<char>, multi_line: bool, hay: Seq<u8>) -> Option<
    (usize, usize),
>;

/// What `Regex::captures` returns: the byte ranges of the whole leftmost
/// match and of its first capture group, when both exist.
pub uninterp spec fn re_captures_spec(pattern: Seq<char>, multi_line: bool, hay: Seq<u8>) -> Option<
    (usize, usize, usize, usize),
>;

/// What `Regex::is_match` returns.
pub uninterp spec fn re_is_match_spec(pattern: Seq<char>, multi_line: bool, hay: Seq<u8>) -> bool;

/// What `Regex::replace_all` returns with replacement `rep`.
pub uninterp spec fn re_replace_all_spec(
    pattern: Seq<char>,
    multi_line: bool,
    hay: Seq<u8>,
    rep: Seq<u8>,
) -> Seq<u8>;

/// Relies on regex::bytes::RegexBuilder::build and Regex::find: the byte
/// range of the leftmost match; Match::start/end are valid indices into
/// the haystack. An unparsable pattern yields no match.
#[verifier::external_body]
fn re_find(pattern: &str, multi_line: bool, hay: &[u8]) -> (r: Option<(usize, usize)>)
    ensures
        r == re_find_spec(pattern@, multi_line, hay@),
        r matches Some(p) ==> p.0 <= p.1 <= hay@.len(),
{
    match regex::bytes::RegexBuilder::new(pattern).multi_line(multi_line).build() {
        Ok(re) => re.find(hay).map(|m| (m.start(), m.end())),
        Err(_) => None,
    }
}

/// Relies on regex::bytes::RegexBuilder::build and Regex::captures: the
/// byte ranges of the whole leftmost match and of capture group 1, which
/// lies within the match; all are valid indices into the haystack.
#[verifier::external_body]
fn re_captures2(pattern: &str, multi_line: bool, hay: &[u8]) -> (r: Option<
    (usize, usize, usize, usize),
>)
    ensures
        r == re_captures_spec(pattern@, multi_line, hay@),
        r matches Some(q) ==> q.0 <= q.2 && q.2 <= q.3 && q.3 <= q.1 && q.1 <= hay@.len(),
{
    let re = match regex::bytes::RegexBuilder::new(pattern).multi_line(multi_line).build() {
        Ok(re) => re,
        Err(_) => return None,
    };
    let caps = re.captures(hay)?;
    match (caps.get(0), caps.get(1)) {
        (Some(w), Some(g)) => Some((w.start(), w.end(), g.start(), g.end())),
        _ => None,
    }
}

/// Relies on regex::bytes::RegexBuilder::build and Regex::is_match. An
/// unparsable pattern matches nothing.
#[verifier::external_body]
fn re_is_match(pattern: &str, multi_line: bool, hay: &[u8]) -> (r: bool)
    ensures
        r == re_is_match_spec(pattern@, multi_line, hay@),
{
    match regex::bytes::RegexBuilder::new(pattern).multi_line(multi_line).build() {
        Ok(re) => re.is_match(hay),
        Err(_) => false,
    }
}

/// Relies on regex::bytes::RegexBuilder::build and Regex::replace_all:
/// every non-overlapping match replaced by `rep`; with no match the
/// haystack comes back unchanged.
#[verifier::external_body]
fn re_replace_all(pattern: &str, multi_line: bool, hay: &[u8], rep: &[u8]) -> (r: Vec<u8>)
    ensures
        r@ == re_replace_all_spec(pattern@, multi_line, hay@, rep@),
        re_find_spec(pattern@, multi_line, hay@) is None ==> r@ == hay@,
{
    match regex::bytes::RegexBuilder::new(pattern).multi_line(multi_line).build() {
        Ok(re) => re.replace_all(hay, rep).into_owned(),
        Err(_) => hay.to_vec(),
    }
}

/// `buf` with the bytes at `[start, end)` replaced by `ins`.
pub open spec fn splice_spec(buf: Seq<u8>, start: int, end: int, ins: Seq<u8>) -> Seq<u8> {
    buf.subrange(0, start) + ins + buf.subrange(end, buf.len() as int)
}

fn splice(buf: &[u8], start: usize, end: usize, ins: &[u8]) -> (r: Vec<u8>)
    requires
        start <= end <= buf@.len(),
    ensures
        r@ == splice_spec(buf@, start as int, end as int, ins@),
{
    let mut r: Vec<u8> = Vec::new();
    let mut i: usize = 0;
    while i < start
        invariant
            i <= start <= end <= buf@.len(),
            r@ == buf@.subrange(0, i as int),
        decreases start - i,
    {
        r.push(buf[i]);
        proof {
            assert(r@ =~= buf@.subrange(0, i + 1));
        }
        i = i + 1;
    }
    let mut j: usize = 0;
    while j < ins.len()
        invariant
            j <= ins@.len(),
            start <= end <= buf@.len(),
            r@ == buf@.subrange(0, start as int) + ins@.subrange(0, j as int),
        decreases ins@.len() - j,
    {
        r.push(ins[j]);
        proof {
            assert(r@ =~= buf@.subrange(0, start as int) + ins@.subrange(0, j + 1));
        }
        j = j + 1;
    }
    proof {
        assert(ins@.subrange(0, ins@.len() as int) =~= ins@);
    }
    let mut k: usize = end;
    while k < buf.len()
        invariant
            end <= k <= buf@.len(),
            start <= end,
            r@ == buf@.subrange(0, start as int) + ins@ + buf@.subrange(end as int, k as int),
        decreases buf@.len() - k,
    {
        r.push(buf[k]);
        proof {
            assert(r@ =~= buf@.subrange(0, start as int) + ins@ + buf@.subrange(
                end as int,
                k + 1,
            ));
        }
        k = k + 1;
    }
    r
}

pub open spec fn is_quote(b: u8) -> bool {
    b == 34 || b == 39
}

/// The sequence without its leading quote characters.
pub open spec fn trim_front(s: Seq<u8>) -> Seq<u8>
    decreases s.len(),
{
    if s.len() > 0 && is_quote(s[0]) {
        trim_front(s.drop_first())
    } else {
        s
    }
}

/// The sequence without its trailing quote characters.
pub open spec fn trim_back(s: Seq<u8>) -> Seq<u8>
    decreases s.len(),
{
    if s.len() > 0 && is_quote(s.last()) {
        trim_back(s.drop_last())
    } else {
        s
    }
}

/// The sequence without surrounding single or double quotes.
pub open spec fn trim_quotes(s: Seq<u8>) -> Seq<u8> {
    trim_back(trim_front(s))
}

fn trim_front_exec(s: &[u8]) -> (r: &[u8])
    ensures
        r@ == trim_front(s@),
    decreases s@.len(),
{
    if s.len() > 0 && (s[0] == 34 || s[0] == 39) {
        let rest = slice_subrange(s, 1, s.len());
        proof {
            assert(rest@ =~= s@.drop_first());
        }
        trim_front_exec(rest)
    } else {
        s
    }
}

fn trim_back_exec(s: &[u8]) -> (r: &[u8])
    ensures
        r@ == trim_back(s@),
    decreases s@.len(),
{
    if s.len() > 0 && (s[s.len() - 1] == 34 || s[s.len() - 1] == 39) {
        let rest = slice_subrange(s, 0, s.len() - 1);
        proof {
            assert(rest@ =~= s@.drop_last());
        }
        trim_back_exec(rest)
    } else {
        s
    }
}

fn trim_quotes_exec(s: &[u8]) -> (r: &[u8])
    ensures
        r@ == trim_quotes(s@),
{
    trim_back_exec(trim_front_exec(s))
}

/// The patterns and fixed lines of the start-script patch.
pub open spec fn exec_pattern() -> Seq<char> {
    "^exec \"[^\"]*\" .*?$"@
}

pub open spec fn ldlib_pattern() -> Seq<char> {
    "^export LD_LIBRARY_PATH=(.*?)$"@
}

pub open spec fn ldpre_pattern() -> Seq<char> {
    "^export LD_PRELOAD=(.*?)\n"@
}

pub open spec fn hyper_pattern() -> Seq<char> {
    "^Hyperspace(\\.\\d+)*.amd64.so$"@
}

pub open spec fn zip_so_pattern() -> Seq<char> {
    "^Linux/[^/]+(\\.[^.]+)*\\.so(\\.[^.]+)*$"@
}

pub open spec fn lib_line() -> Seq<u8> {
    "export LD_LIBRARY_PATH=\"$here:$LD_LIBRARY_PATH\"\n".spec_bytes()
}

pub open spec fn obj_name(new_binary: bool) -> Seq<u8> {
    if new_binary {
        "Hyperspace.1.6.13.amd64.so".spec_bytes()
    } else {
        "Hyperspace.1.6.12.amd64.so".spec_bytes()
    }
}

pub open spec fn preload_line(new_binary: bool) -> Seq<u8> {
    "export LD_PRELOAD=".spec_bytes() + obj_name(new_binary) + seq![10u8]
}

/// The start script after the patch: nothing changes unless the launch
/// line is found; the library-path export is added once; the preload
/// export is added, or its existing extension object replaced.
pub open spec fn patched(s: Seq<u8>, new_binary: bool) -> Seq<u8> {
    match re_find_spec(exec_pattern(), true, s) {
        None => s,
        Some(r0) => {
            let s1 = if re_find_spec(ldlib_pattern(), true, s) is Some {
                s
            } else {
                splice_spec(s, r0.0 as int, r0.0 as int, lib_line())
            };
            match re_captures_spec(ldpre_pattern(), true, s1) {
                Some(c) => {
                    if re_is_match_spec(
                        hyper_pattern(),
                        false,
                        trim_quotes(s1.subrange(c.2 as int, c.3 as int)),
                    ) {
                        splice_spec(s1, c.2 as int, c.3 as int, obj_name(new_binary))
                    } else {
                        s1
                    }
                },
                None => splice_spec(s1, r0.0 as int, r0.0 as int, preload_line(new_binary)),
            }
        },
    }
}

/// Whether the game binary is a supported release.
#[derive(Clone, Copy, Debug, PartialEq, Eq, Structural)]
pub enum SupportVerdict {
    Supported,
    UnrecognizedSize(u64),
    BinaryNotFound,
}

/// Installs the game extension on the Linux build of the game. The host
/// does the file and archive I/O; these functions decide what to copy
/// and how the start script changes.
pub struct LinuxInstaller;

impl LinuxInstaller {
    /// The one supported game-binary size; anything else is reported,
    /// a missing binary likewise.
    pub fn supported(&self, binary_size: Option<u64>) -> (r: SupportVerdict)
        ensures
            r == (match binary_size {
                Some(n) => {
                    if n == 72443660 {
                        SupportVerdict::Supported
                    } else {
                        SupportVerdict::UnrecognizedSize(n)
                    }
                },
                None => SupportVerdict::BinaryNotFound,
            }),
    {
        match binary_size {
            Some(n) => {
                if n == 72443660 {
                    SupportVerdict::Supported
                } else {
                    SupportVerdict::UnrecognizedSize(n)
                }
            },
            None => SupportVerdict::BinaryNotFound,
        }
    }

    /// Which archive entries are the bundled Linux shared objects, each
    /// with its destination name (the entry name without the archive's
    /// platform directory).
    pub fn shared_object_targets(&self, names: &Vec<Vec<u8>>) -> (r: Vec<(Vec<u8>, Vec<u8>)>)
        ensures
            r@.len() == so_targets(names@.map_values(|v: Vec<u8>| v@)).len(),
            forall|i: int|
                0 <= i < r@.len() ==> ((#[trigger] r@[i].0)@, r@[i].1@) == so_targets(
                    names@.map_values(|v: Vec<u8>| v@),
                )[i],
    {
        let ghost views: Seq<Seq<u8>> = names@.map_values(|v: Vec<u8>| v@);
        let mut r: Vec<(Vec<u8>, Vec<u8>)> = Vec::new();
        let ghost mapped0: Seq<(Seq<u8>, Seq<u8>)> = Seq::empty();
        let n = names.len();
        let mut j: usize = 0;
        proof {
            assert(views.skip(0) =~= views);
        }
        while j < n
            invariant
                n == names@.len(),
                j <= n,
                views == names@.map_values(|v: Vec<u8>| v@),
                so_targets(views) =~= r@.map_values(|p: (Vec<u8>, Vec<u8>)| (p.0@, p.1@))
                    + so_targets(views.skip(j as int)),
            decreases n - j,
        {
            let name = &names[j];
            let keep = re_is_match(
                "^Linux/[^/]+(\\.[^.]+)*\\.so(\\.[^.]+)*$",
                false,
                name.as_slice(),
            ) && name.len() >= 6 && has_linux_prefix(name.as_slice());
            let ghost rold = r@;
            if keep {
                let dst = slice_to_vec(slice_subrange(name.as_slice(), 6, name.len()));
                let src = slice_to_vec(name.as_slice());
                r.push((src, dst));
            }
            proof {
                assert(views.skip(j as int).drop_first() =~= views.skip(j as int + 1));
                assert(views.skip(j as int)[0] == views[j as int]);
                if keep {
                    assert(r@.map_values(|p: (Vec<u8>, Vec<u8>)| (p.0@, p.1@)) =~= rold.map_values(
                        |p: (Vec<u8>, Vec<u8>)| (p.0@, p.1@),
                    ).push((views[j as int], views[j as int].subrange(
                        6,
                        views[j as int].len() as int,
                    ))));
                } else {
                    assert(r@.map_values(|p: (Vec<u8>, Vec<u8>)| (p.0@, p.1@)) =~= rold.map_values(
                        |p: (Vec<u8>, Vec<u8>)| (p.0@, p.1@),
                    ));
                }
                assert(so_targets(views) =~= r@.map_values(|p: (Vec<u8>, Vec<u8>)| (p.0@, p.1@))
                    + so_targets(views.skip(j as int + 1)));
            }
            j = j + 1;
        }
        proof {
            assert(views.skip(n as int) =~= Seq::<Seq<u8>>::empty());
            assert(so_targets(views) =~= r@.map_values(|p: (Vec<u8>, Vec<u8>)| (p.0@, p.1@)));
            assert forall|i: int| 0 <= i < r@.len() implies ((#[trigger] r@[i].0)@, r@[i].1@)
                == so_targets(views)[i] by {
                assert(r@.map_values(|p: (Vec<u8>, Vec<u8>)| (p.0@, p.1@))[i] == (r@[i].0@, r@[i].1@));
            }
        }
        r
    }

    /// The start script with the extension's loader exports in place.
    pub fn patch_start_script(&self, script: &Vec<u8>, new_binary: bool) -> (r: Vec<u8>)
        ensures
            r@ == patched(script@, new_binary),
    {
        let exec_at = re_find("^exec \"[^\"]*\" .*?$", true, script.as_slice());
        let rs = match exec_at {
            Some(p) => p.0,
            None => {
                return slice_to_vec(script.as_slice());
            },
        };
        let cur: Vec<u8> = if re_find(
            "^export LD_LIBRARY_PATH=(.*?)$",
            true,
            script.as_slice(),
        ).is_some() {
            slice_to_vec(script.as_slice())
        } else {
            splice(
                script.as_slice(),
                rs,
                rs,
                "export LD_LIBRARY_PATH=\"$here:$LD_LIBRARY_PATH\"\n".as_bytes(),
            )
        };
        let obj: &[u8] = if new_binary {
            "Hyperspace.1.6.13.amd64.so".as_bytes()
        } else {
            "Hyperspace.1.6.12.amd64.so".as_bytes()
        };
        match re_captures2("^export LD_PRELOAD=(.*?)\n", true, cur.as_slice()) {
            Some(c) => {
                let group = slice_subrange(cur.as_slice(), c.2, c.3);
                proof {
                    assert(group@ =~= cur@.subrange(c.2 as int, c.3 as int));
                }
                if re_is_match("^Hyperspace(\\.\\d+)*.amd64.so$", false, trim_quotes_exec(group)) {
                    splice(cur.as_slice(), c.2, c.3, obj)
                } else {
                    cur
                }
            },
            None => {
                let mut line: Vec<u8> = slice_to_vec("export LD_PRELOAD=".as_bytes());
                let mut i: usize = 0;
                while i < obj.len()
                    invariant
                        i <= obj@.len(),
                        line@ == "export LD_PRELOAD=".spec_bytes() + obj@.subrange(0, i as int),
                    decreases obj@.len() - i,
                {
                    line.push(obj[i]);
                    proof {
                        assert(line@ =~= "export LD_PRELOAD=".spec_bytes() + obj@.subrange(
                            0,
                            i + 1,
                        ));
                    }
                    i = i + 1;
                }
                line.push(10);
                proof {
                    assert(obj@.subrange(0, obj@.len() as int) =~= obj@);
                    assert(line@ =~= "export LD_PRELOAD=".spec_bytes() + obj@ + seq![10u8]);
                    assert(line@ =~= preload_line(new_binary));
                }
                splice(cur.as_slice(), rs, rs, line.as_slice())
            },
        }
    }

    /// The start script with every preload export removed — the inverse
    /// of installation, as far as the script is concerned. Nothing to
    /// remove means nothing to write back.
    pub fn disable(&self, script: &Vec<u8>) -> (r: Option<Vec<u8>>)
        ensures
            (r is Some) <==> (re_find_spec(ldpre_pattern(), true, script@) is Some),
            r matches Some(out) ==> out@ == re_replace_all_spec(
                ldpre_pattern(),
                true,
                script@,
                Seq::<u8>::empty(),
            ),
    {
        let found = re_find("^export LD_PRELOAD=(.*?)\n", true, script.as_slice());
        if found.is_some() {
            let empty_rep: Vec<u8> = Vec::new();
            Some(
                re_replace_all(
                    "^export LD_PRELOAD=(.*?)\n",
                    true,
                    script.as_slice(),
                    empty_rep.as_slice(),
                ),
            )
        } else {
            None
        }
    }
}

/// The archive's platform directory, as the bytes "Linux/".
pub open spec fn linux_prefix() -> Seq<u8> {
    seq![76u8, 105u8, 110u8, 117u8, 120u8, 47u8]
}

/// Whether the entry name begins with the archive's platform directory.
fn has_linux_prefix(b: &[u8]) -> (r: bool)
    ensures
        r == (b@.len() >= 6 && b@.subrange(0, 6) == linux_prefix()),
{
    if b.len() >= 6 && b[0] == 76 && b[1] == 105 && b[2] == 110 && b[3] == 117 && b[4] == 120
        && b[5] == 47 {
        proof {
            assert(b@.subrange(0, 6) =~= linux_prefix());
        }
        true
    } else {
        proof {
            if b@.len() >= 6 && b@.subrange(0, 6) == linux_prefix() {
                assert(b@.subrange(0, 6)[0] == b@[0]);
                assert(b@.subrange(0, 6)[1] == b@[1]);
                assert(b@.subrange(0, 6)[2] == b@[2]);
                assert(b@.subrange(0, 6)[3] == b@[3]);
                assert(b@.subrange(0, 6)[4] == b@[4]);
                assert(b@.subrange(0, 6)[5] == b@[5]);
                assert(false);
            }
        }
        false
    }
}

/// Which entries are kept, with their destination names: the entries the
/// shared-object pattern matches, stripped of the platform directory.
pub open spec fn so_targets(names: Seq<Seq<u8>>) -> Seq<(Seq<u8>, Seq<u8>)>
    decreases names.len(),
{
    if names.len() == 0 {
        Seq::empty()
    } else {
        let rest = so_targets(names.drop_first());
        if re_is_match_spec(zip_so_pattern(), false, names[0]) && names[0].len() >= 6
            && names[0].subrange(0, 6) == linux_prefix() {
            seq![(names[0], names[0].subrange(6, names[0].len() as int))] + rest
        } else {
            rest
        }
    }
}

} // verus!
