//! Path-extension advisories.
//!
//! Before a run the tool warns — and only warns — when the input path's
//! extension is not a common video container, or when the output path's
//! extension is not `gif`. Extensions are read the way paths are usually
//! read: the part of the last path component after its last dot, where a
//! dot that starts the component does not count. Case is folded for the
//! ASCII letters only.
use vstd::prelude::*;
use vstd::string::*;

verus! {

/// The index of the last `c` in `s`, or `-1` when there is none.
pub open spec fn spec_last_index_of(s: Seq<char>, c: char) -> int
    decreases s.len(),
{
    if s.len() == 0 {
        -1
    } else if s.last() == c {
        s.len() - 1
    } else {
        spec_last_index_of(s.drop_last(), c)
    }
}

/// The extension of a path: what follows the last dot of the last
/// `/`-separated component, unless that dot begins the component or there
/// is no dot in it.
pub open spec fn spec_extension(s: Seq<char>) -> Option<Seq<char>> {
    let slash = spec_last_index_of(s, '/');
    let dot = spec_last_index_of(s, '.');
    if dot > slash + 1 {
        Some(s.skip(dot + 1))
    } else {
        None
    }
}

pub open spec fn spec_lower_char(c: char) -> char {
    if 65 <= (c as u32) && (c as u32) <= 90 {
        (((c as u32) + 32) as u8) as char
    } else {
        c
    }
}

/// ASCII case folding, character by character.
pub open spec fn spec_lower(s: Seq<char>) -> Seq<char> {
    s.map_values(|c: char| spec_lower_char(c))
}

/// The container extensions that pass without an advisory.
pub open spec fn spec_known_video_ext(e: Seq<char>) -> bool {
    spec_lower(e) == "webm"@ || spec_lower(e) == "mp4"@ || spec_lower(e) == "avi"@ || spec_lower(e)
        == "mov"@ || spec_lower(e) == "mkv"@ || spec_lower(e) == "flv"@ || spec_lower(e) == "wmv"@
}

/// The input advisory fires when the path has an extension and it is not a
/// known video container.
pub open spec fn spec_input_warning(path: Seq<char>) -> bool {
    match spec_extension(path) {
        Some(e) => !spec_known_video_ext(e),
        None => false,
    }
}

/// The output advisory fires when the path has an extension other than
/// `gif`.
pub open spec fn spec_output_warning(path: Seq<char>) -> bool {
    match spec_extension(path) {
        Some(e) => spec_lower(e) != "gif"@,
        None => false,
    }
}

proof fn lemma_last_index_step(s: Seq<char>, c: char, i: int)
    requires
        0 <= i < s.len(),
    ensures
        spec_last_index_of(s.take(i + 1), c) == (if s[i] == c {
            i
        } else {
            spec_last_index_of(s.take(i), c)
        }),
{
    assert(s.take(i + 1).drop_last() =~= s.take(i));
    assert(s.take(i + 1).last() == s[i]);
}

/// The index of the last occurrence of `c` in `s`, if any.
fn last_index_of(s: &str, c: char) -> (r: Option<usize>)
    ensures
        (match r {
            Some(i) => spec_last_index_of(s@, c) == i as int && i < s@.len(),
            None => spec_last_index_of(s@, c) == -1,
        }),
{
    let n = s.unicode_len();
    let mut best: Option<usize> = None;
    let mut i: usize = 0;
    while i < n
        invariant
            n == s@.len(),
            i <= n,
            (match best {
                Some(b) => spec_last_index_of(s@.take(i as int), c) == b as int && b < i,
                None => spec_last_index_of(s@.take(i as int), c) == -1,
            }),
        decreases n - i,
    {
        let ch = s.get_char(i);
        proof {
            lemma_last_index_step(s@, c, i as int);
        }
        if ch == c {
            best = Some(i);
        }
        i += 1;
    }
    proof {
        assert(s@.take(n as int) =~= s@);
    }
    best
}

/// The extension of `path`, if it has one.
pub fn extension_of(path: &str) -> (r: Option<&str>)
    ensures
        (match r {
            Some(e) => spec_extension(path@) == Some(e@),
            None => spec_extension(path@) is None,
        }),
{
    let n = path.unicode_len();
    let slash = last_index_of(path, '/');
    let dot = last_index_of(path, '.');
    match dot {
        None => None,
        Some(d) => {
            let limit: usize = match slash {
                Some(sl) => sl + 1,
                None => 0,
            };
            if d > limit {
                let e = path.substring_char(d + 1, n);
                proof {
                    assert(e@ =~= path@.skip(d as int + 1));
                }
                Some(e)
            } else {
                None
            }
        },
    }
}

fn lower_char(c: char) -> (r: char)
    ensures
        r == spec_lower_char(c),
{
    let u = c as u32;
    if 65 <= u && u <= 90 {
        ((u + 32) as u8) as char
    } else {
        c
    }
}

/// True exactly when the two strings agree after ASCII case folding.
pub fn eq_lower(a: &str, b: &str) -> (r: bool)
    ensures
        r == (spec_lower(a@) == spec_lower(b@)),
{
    let n = a.unicode_len();
    if n != b.unicode_len() {
        proof {
            assert(spec_lower(a@).len() != spec_lower(b@).len());
        }
        return false;
    }
    let mut i: usize = 0;
    while i < n
        invariant
            n == a@.len(),
            n == b@.len(),
            i <= n,
            forall|j: int| 0 <= j < i ==> spec_lower_char(a@[j]) == spec_lower_char(b@[j]),
        decreases n - i,
    {
        let ca = lower_char(a.get_char(i));
        let cb = lower_char(b.get_char(i));
        if ca != cb {
            proof {
                assert(spec_lower(a@)[i as int] == spec_lower_char(a@[i as int]));
                assert(spec_lower(b@)[i as int] == spec_lower_char(b@[i as int]));
            }
            return false;
        }
        i += 1;
    }
    proof {
        assert forall|j: int| 0 <= j < n implies spec_lower(a@)[j] == spec_lower(b@)[j] by {
            assert(spec_lower(a@)[j] == spec_lower_char(a@[j]));
            assert(spec_lower(b@)[j] == spec_lower_char(b@[j]));
        }
        assert(spec_lower(a@) =~= spec_lower(b@));
    }
    true
}

proof fn lemma_lower_fixed_literals()
    ensures
        spec_lower("webm"@) == "webm"@,
        spec_lower("mp4"@) == "mp4"@,
        spec_lower("avi"@) == "avi"@,
        spec_lower("mov"@) == "mov"@,
        spec_lower("mkv"@) == "mkv"@,
        spec_lower("flv"@) == "flv"@,
        spec_lower("wmv"@) == "wmv"@,
        spec_lower("gif"@) == "gif"@,
{
    reveal_strlit("webm");
    reveal_strlit("mp4");
    reveal_strlit("avi");
    reveal_strlit("mov");
    reveal_strlit("mkv");
    reveal_strlit("flv");
    reveal_strlit("wmv");
    reveal_strlit("gif");
    assert(spec_lower("webm"@) =~= "webm"@);
    assert(spec_lower("mp4"@) =~= "mp4"@);
    assert(spec_lower("avi"@) =~= "avi"@);
    assert(spec_lower("mov"@) =~= "mov"@);
    assert(spec_lower("mkv"@) =~= "mkv"@);
    assert(spec_lower("flv"@) =~= "flv"@);
    assert(spec_lower("wmv"@) =~= "wmv"@);
    assert(spec_lower("gif"@) =~= "gif"@);
}

/// Whether the advisory about an unusual input container should be shown.
pub fn input_needs_warning(path: &str) -> (w: bool)
    ensures
        w == spec_input_warning(path@),
{
    match extension_of(path) {
        None => false,
        Some(e) => {
            proof {
                lemma_lower_fixed_literals();
            }
            let known = eq_lower(e, "webm") || eq_lower(e, "mp4") || eq_lower(e, "avi") || eq_lower(
                e,
                "mov",
            ) || eq_lower(e, "mkv") || eq_lower(e, "flv") || eq_lower(e, "wmv");
            !known
        },
    }
}

/// Whether the advisory about a non-GIF output name should be shown.
pub fn output_needs_warning(path: &str) -> (w: bool)
    ensures
        w == spec_output_warning(path@),
{
    match extension_of(path) {
        None => false,
        Some(e) => {
            proof {
                lemma_lower_fixed_literals();
            }
            !eq_lower(e, "gif")
        },
    }
}

} // verus!
