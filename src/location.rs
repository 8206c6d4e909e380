use vstd::prelude::*;

verus! {

/// `s` without the slashes it starts with.
pub open spec fn drop_leading_slashes(s: Seq<char>) -> Seq<char>
    decreases s.len(),
{
    if s.len() > 0 && s[0] == '/' {
        drop_leading_slashes(s.drop_first())
    } else {
        s
    }
}

/// What follows the home-directory shorthand: `Some` when the path's first
/// component is `~`, with the separators after it dropped.
pub open spec fn after_tilde(p: Seq<char>) -> Option<Seq<char>> {
    if p.len() >= 1 && p[0] == '~' && (p.len() == 1 || p[1] == '/') {
        Some(drop_leading_slashes(p.drop_first()))
    } else {
        None
    }
}

/// `rest` placed under `dir`, with a separator between them unless `dir` is
/// empty or already ends with one.
pub open spec fn joined(dir: Seq<char>, rest: Seq<char>) -> Seq<char> {
    if dir.len() > 0 && dir.last() != '/' {
        dir + seq!['/'] + rest
    } else {
        dir + rest
    }
}

/// The path with a leading `~` component replaced by the home directory.
pub open spec fn expanded(p: Seq<char>, home: Seq<char>) -> Seq<char> {
    match after_tilde(p) {
        Some(rest) => joined(home, rest),
        None => p,
    }
}

/// Replaces a leading `~` component of `path` by `home`; any other path is
/// returned as it is.
pub fn expand_tilde(path: &str, home: &str) -> (r: String)
    ensures
        r@ == expanded(path@, home@),
{
    let n = path.unicode_len();
    if n == 0 || path.get_char(0) != '~' || (n > 1 && path.get_char(1) != '/') {
        return String::from_str(path);
    }
    let mut i: usize = 1;
    while i < n && path.get_char(i) == '/'
        invariant
            n == path@.len(),
            1 <= i <= n,
            drop_leading_slashes(path@.drop_first()) == drop_leading_slashes(path@.subrange(i as int, n as int)),
        decreases n - i,
    {
        assert(path@.subrange(i as int, n as int).drop_first() =~= path@.subrange(i + 1, n as int));
        i = i + 1;
    }
    assert(path@.drop_first() =~= path@.subrange(1, n as int));
    let rest = path.substring_char(i, n);
    assert(drop_leading_slashes(rest@) == rest@);
    let mut out = String::from_str(home);
    let h = home.unicode_len();
    if h > 0 && home.get_char(h - 1) != '/' {
        proof {
            reveal_strlit("/");
        }
        out.append("/");
    }
    out.append(rest);
    out
}

} // verus!
