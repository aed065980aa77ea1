use vstd::prelude::*;

verus! {

/// Index just past the last `/` among the first `i` characters of `s`, or 0 when
/// there is none.
pub open spec fn name_start(s: Seq<char>, i: int) -> int
    decreases i,
{
    if i <= 0 {
        0
    } else if s[i - 1] == '/' {
        i
    } else {
        name_start(s, i - 1)
    }
}

/// The file name among the first `e` characters of the `/`-separated path `s`,
/// as `std::path::Path::file_name` finds it: empty parts and `.` parts are
/// skipped from the end; the last part left is the name, unless it is `..` or
/// none is left, and then the name is empty.
pub open spec fn name_before(s: Seq<char>, e: int) -> Seq<char>
    decreases e,
{
    if e <= 0 {
        Seq::empty()
    } else {
        let part = s.subrange(name_start(s, e), e);
        if part.len() == 0 || part == seq!['.'] {
            name_before(s, e - 1)
        } else if part == seq!['.', '.'] {
            Seq::empty()
        } else {
            part
        }
    }
}

/// The file name of the path `s` (see `name_before`); empty when it has none.
pub open spec fn base_name(s: Seq<char>) -> Seq<char> {
    name_before(s, s.len() as int)
}

/// `s` ends with `suffix`.
pub open spec fn has_suffix(s: Seq<char>, suffix: Seq<char>) -> bool {
    &&& suffix.len() <= s.len()
    &&& s.subrange(s.len() - suffix.len(), s.len() as int) == suffix
}

proof fn lemma_name_start_bounds(s: Seq<char>, i: int)
    requires
        0 <= i,
    ensures
        0 <= name_start(s, i) <= i,
    decreases i,
{
    if i > 0 && s[i - 1] != '/' {
        lemma_name_start_bounds(s, i - 1);
    }
}

/// Whether `s` ends with `suffix`, comparing characters.
pub fn ends_with(s: &str, suffix: &str) -> (r: bool)
    ensures
        r == has_suffix(s@, suffix@),
{
    let n = s.unicode_len();
    let m = suffix.unicode_len();
    if m > n {
        return false;
    }
    let off = n - m;
    let mut i: usize = 0;
    while i < m
        invariant
            i <= m,
            m == suffix@.len(),
            n == s@.len(),
            off == n - m,
            forall|j: int| 0 <= j < i ==> s@[off + j] == suffix@[j],
        decreases m - i,
    {
        if s.get_char(off + i) != suffix.get_char(i) {
            assert(s@.subrange(off as int, n as int)[i as int] == s@[off + i]);
            return false;
        }
        i = i + 1;
    }
    assert(s@.subrange(off as int, n as int) =~= suffix@);
    true
}

/// Where the last part of the first `e` characters of `s` starts: just past
/// the last `/` among them.
fn part_start(s: &str, e: usize) -> (k: usize)
    requires
        e <= s@.len(),
    ensures
        k == name_start(s@, e as int),
        k <= e,
{
    let mut i: usize = e;
    while i > 0 && s.get_char(i - 1) != '/'
        invariant
            i <= e,
            e <= s@.len(),
            name_start(s@, e as int) == name_start(s@, i as int),
        decreases i,
    {
        i = i - 1;
    }
    proof {
        lemma_name_start_bounds(s@, e as int);
    }
    i
}

/// The file name of `path` (see `base_name`): `foo.png` for `img/foo.png`,
/// `img/foo.png/` and `img/foo.png/.`; empty for `..`, `/` and the empty path.
pub fn file_name(path: &str) -> (r: String)
    ensures
        r@ == base_name(path@),
{
    let n = path.unicode_len();
    let mut e: usize = n;
    loop
        invariant
            e <= n,
            n == path@.len(),
            name_before(path@, n as int) == name_before(path@, e as int),
        decreases e,
    {
        if e == 0 {
            return String::new();
        }
        let k = part_start(path, e);
        let ghost part = path@.subrange(k as int, e as int);
        let len = e - k;
        if len == 0 {
            e = e - 1;
        } else if len == 1 && path.get_char(k) == '.' {
            assert(part =~= seq!['.']);
            e = e - 1;
        } else {
            proof {
                let dot = seq!['.'];
                assert(dot.len() == 1 && dot[0] == '.');
                if part == dot {
                    assert(part[0] == path@[k as int]);
                }
            }
            assert(part != seq!['.']);
            if len == 2 && path.get_char(k) == '.' && path.get_char(k + 1) == '.' {
                assert(part =~= seq!['.', '.']);
                return String::new();
            }
            proof {
                let dots = seq!['.', '.'];
                assert(dots.len() == 2 && dots[0] == '.' && dots[1] == '.');
                if part == dots {
                    assert(part[0] == path@[k as int]);
                    assert(part[1] == path@[k + 1]);
                }
            }
            assert(part != seq!['.', '.']);
            return path.substring_char(k, e).to_string();
        }
    }
}

} // verus!
