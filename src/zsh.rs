use vstd::prelude::*;

verus! {

/// The index of the first `'\n'` at or after `start`, or the length of `s`.
pub open spec fn newline_from(s: Seq<char>, start: int) -> int
    decreases s.len() - start,
{
    if start < 0 || start >= s.len() {
        s.len() as int
    } else if s[start] == '\n' {
        start
    } else {
        newline_from(s, start + 1)
    }
}

/// A line without the carriage return that ended it.
pub open spec fn strip_cr(l: Seq<char>) -> Seq<char> {
    if l.len() > 0 && l.last() == '\r' {
        l.drop_last()
    } else {
        l
    }
}

/// The lines of `s` from `start` on: split after each `'\n'`, a `"\r\n"`
/// ending counting as one, and no empty line after a final line ending.
pub open spec fn lines_from(s: Seq<char>, start: int) -> Seq<Seq<char>>
    decreases s.len() - start,
{
    if start < 0 || start >= s.len() {
        seq![]
    } else {
        let e = newline_from(s, start);
        if e >= s.len() || e < start {
            seq![s.subrange(start, s.len() as int)]
        } else {
            seq![strip_cr(s.subrange(start, e))] + lines_from(s, e + 1)
        }
    }
}

/// `pat` occurs in `s` at index `i`.
pub open spec fn occurs_at(s: Seq<char>, pat: Seq<char>, i: int) -> bool {
    0 <= i && i + pat.len() <= s.len() && s.subrange(i, i + pat.len()) == pat
}

/// A line of the embedded fragment that is kept: it is not marked for
/// trimming and is no interpreter line.
pub open spec fn line_kept(l: Seq<char>) -> bool {
    !(exists|i: int| occurs_at(l, "#trim"@, i)) && !occurs_at(l, "#!"@, 0)
}

/// The kept lines of `ls`, joined by newlines.
pub open spec fn join_kept(ls: Seq<Seq<char>>) -> Seq<char>
    decreases ls.len(),
{
    if ls.len() == 0 {
        seq![]
    } else {
        let head = join_kept(ls.drop_last());
        if !line_kept(ls.last()) {
            head
        } else if no_kept(ls.drop_last()) {
            ls.last()
        } else {
            head + seq!['\n'] + ls.last()
        }
    }
}

/// None of `ls` is kept.
pub open spec fn no_kept(ls: Seq<Seq<char>>) -> bool {
    forall|i: int| 0 <= i < ls.len() ==> !line_kept(#[trigger] ls[i])
}

/// Every non-overlapping occurrence of `from` in `s`, taken from the left,
/// replaced by `to`.
pub open spec fn replaced(s: Seq<char>, from: Seq<char>, to: Seq<char>) -> Seq<char>
    decreases s.len(),
{
    if from.len() == 0 || s.len() < from.len() {
        s
    } else if s.subrange(0, from.len() as int) == from {
        to + replaced(s.subrange(from.len() as int, s.len() as int), from, to)
    } else {
        seq![s[0]] + replaced(s.drop_first(), from, to)
    }
}

/// Relies on str::replace: every non-overlapping occurrence of the pattern,
/// from the left, is replaced.
#[verifier::external_body]
fn replace_all(s: &str, from: &str, to: &str) -> (r: String)
    requires
        from@.len() > 0,
    ensures
        r@ == replaced(s@, from@, to@),
{
    s.replace(from, to)
}

fn occurs_at_exec(s: &str, n: usize, pat: &str, i: usize) -> (r: bool)
    requires
        n == s@.len(),
        i <= n,
    ensures
        r == occurs_at(s@, pat@, i as int),
{
    let m = pat.unicode_len();
    if m > n - i {
        return false;
    }
    let mut j: usize = 0;
    while j < m
        invariant
            m == pat@.len(),
            n == s@.len(),
            i + m <= n,
            0 <= j <= m,
            forall|k: int| 0 <= k < j ==> s@[i + k] == pat@[k],
        decreases m - j,
    {
        if s.get_char(i + j) != pat.get_char(j) {
            assert(s@.subrange(i as int, i + m)[j as int] != pat@[j as int]);
            return false;
        }
        j = j + 1;
    }
    assert(s@.subrange(i as int, i + m) =~= pat@);
    true
}

/// Whether a fragment line is kept.
pub fn keep_line(l: &str) -> (r: bool)
    ensures
        r == line_kept(l@),
{
    proof {
        reveal_strlit("#trim");
    }
    let n = l.unicode_len();
    if occurs_at_exec(l, n, "#!", 0) {
        return false;
    }
    let mut i: usize = 0;
    while i < n
        invariant
            n == l@.len(),
            0 <= i <= n,
            forall|k: int| 0 <= k < i ==> !occurs_at(l@, "#trim"@, k),
        decreases n - i,
    {
        if occurs_at_exec(l, n, "#trim", i) {
            return false;
        }
        i = i + 1;
    }
    assert forall|k: int| !occurs_at(l@, "#trim"@, k) by {
        if 0 <= k < n {
        } else {
            assert(!occurs_at(l@, "#trim"@, k));
        }
    }
    true
}

/// The characters of each string.
pub open spec fn views(v: Seq<String>) -> Seq<Seq<char>> {
    v.map_values(|x: String| x@)
}

proof fn lemma_newline_from_bounds(s: Seq<char>, start: int)
    requires
        0 <= start <= s.len(),
    ensures
        start <= newline_from(s, start) <= s.len(),
        newline_from(s, start) < s.len() ==> s[newline_from(s, start)] == '\n',
    decreases s.len() - start,
{
    if start < s.len() && s[start] != '\n' {
        lemma_newline_from_bounds(s, start + 1);
    }
}

proof fn lemma_none_kept_joins_empty(ls: Seq<Seq<char>>)
    requires
        no_kept(ls),
    ensures
        join_kept(ls) == Seq::<char>::empty(),
    decreases ls.len(),
{
    if ls.len() > 0 {
        assert(!line_kept(ls[ls.len() - 1]));
        assert forall|j: int| 0 <= j < ls.drop_last().len() implies !line_kept(#[trigger] ls.drop_last()[j]) by {
            assert(ls.drop_last()[j] == ls[j]);
        }
        lemma_none_kept_joins_empty(ls.drop_last());
    }
}

/// Splits `s` into its lines.
pub fn split_lines(s: &str) -> (r: Vec<String>)
    ensures
        views(r@) == lines_from(s@, 0),
{
    let n = s.unicode_len();
    let mut out: Vec<String> = Vec::new();
    let mut start: usize = 0;
    while start < n
        invariant
            n == s@.len(),
            0 <= start <= n,
            views(out@) + lines_from(s@, start as int) == lines_from(s@, 0),
        decreases n - start,
    {
        let mut e: usize = start;
        while e < n && s.get_char(e) != '\n'
            invariant
                n == s@.len(),
                start <= e <= n,
                newline_from(s@, start as int) == newline_from(s@, e as int),
            decreases n - e,
        {
            e = e + 1;
        }
        proof {
            lemma_newline_from_bounds(s@, start as int);
        }
        assert(newline_from(s@, start as int) == e);
        let ghost prev = out@;
        if e >= n {
            let line = String::from_str(s.substring_char(start, n));
            out.push(line);
            assert(lines_from(s@, n as int) =~= seq![]);
            assert(views(out@) =~= views(prev) + seq![line@]);
            start = n;
        } else {
            let stop: usize = if e > start && s.get_char(e - 1) == '\r' {
                e - 1
            } else {
                e
            };
            let line = String::from_str(s.substring_char(start, stop));
            assert(line@ == strip_cr(s@.subrange(start as int, e as int)));
            out.push(line);
            assert(views(out@) =~= views(prev) + seq![line@]);
            assert(views(out@) + lines_from(s@, e + 1) =~= views(prev) + lines_from(s@, start as int));
            start = e + 1;
        }
    }
    assert(lines_from(s@, start as int) =~= seq![]);
    assert(views(out@) =~= views(out@) + lines_from(s@, start as int));
    out
}

/// Joins the kept lines of `ls` by newlines.
pub fn join_kept_lines(ls: &Vec<String>) -> (r: String)
    ensures
        r@ == join_kept(views(ls@)),
{
    let mut out = String::new();
    let mut any: bool = false;
    let mut i: usize = 0;
    while i < ls.len()
        invariant
            0 <= i <= ls@.len(),
            out@ == join_kept(views(ls@).subrange(0, i as int)),
            any == !no_kept(views(ls@).subrange(0, i as int)),
        decreases ls@.len() - i,
    {
        let ghost pre = views(ls@).subrange(0, i as int);
        let ghost cur = views(ls@).subrange(0, i + 1);
        assert(cur.drop_last() =~= pre);
        assert(cur.last() == ls@[i as int]@);
        if keep_line(ls[i].as_str()) {
            proof {
                if !any {
                    lemma_none_kept_joins_empty(pre);
                }
            }
            if any {
                proof {
                    reveal_strlit("\n");
                }
                out.append("\n");
            }
            out.append(ls[i].as_str());
            any = true;
            assert(!no_kept(cur)) by {
                assert(!line_kept(cur[i as int]) == false);
            }
        } else {
            assert forall|j: int| 0 <= j < cur.len() && no_kept(pre) implies !line_kept(#[trigger] cur[j]) by {
                if j < i {
                    assert(cur[j] == pre[j]);
                }
            }
            assert(no_kept(pre) ==> no_kept(cur));
            assert(!no_kept(pre) ==> !no_kept(cur)) by {
                if !no_kept(pre) {
                    let j = choose|j: int| 0 <= j < pre.len() && line_kept(#[trigger] pre[j]);
                    assert(cur[j] == pre[j]);
                }
            }
        }
        i = i + 1;
    }
    assert(views(ls@).subrange(0, i as int) =~= views(ls@));
    out
}

/// What stands in place of each `"&& ret=0\n"` of the generated script:
/// that marker, the kept lines of the fragment source, and a newline.
pub open spec fn fragment_block(src: Seq<char>) -> Seq<char> {
    "&& ret=0\n"@ + join_kept(lines_from(src, 0)) + "\n"@
}

/// The generated zsh script with the fragment spliced in and the context,
/// namespace, secret and key arguments sent to their dynamic states.
pub open spec fn zsh_script(generated: Seq<char>, src: Seq<char>) -> Seq<char> {
    let s1 = replaced(generated, "&& ret=0\n"@, fragment_block(src));
    let s2 = replaced(s1, ":CONTEXT: "@, ":CONTEXT:->contexts "@);
    let s3 = replaced(s2, ":NAMESPACE: "@, ":NAMESPACE:->namespaces "@);
    let s4 = replaced(
        s3,
        ":secret -- Name of the secret:"@,
        ":secret -- Name of the secret:->secrets"@,
    );
    replaced(s4, "::key -- Key in secret:"@, "::key -- Key in secret:->keys"@)
}

/// Builds the block that replaces each `"&& ret=0\n"` marker.
pub fn completion_fragment(src: &str) -> (r: String)
    ensures
        r@ == fragment_block(src@),
{
    let lines = split_lines(src);
    let body = join_kept_lines(&lines);
    let mut out = String::from_str("&& ret=0\n");
    out.append(body.as_str());
    out.append("\n");
    out
}

/// Rewrites the zsh completion script that clap generated so that it
/// completes contexts, namespaces, secrets and keys dynamically.
pub fn zsh_completion_script(generated: &str, fragment_source: &str) -> (r: String)
    ensures
        r@ == zsh_script(generated@, fragment_source@),
{
    proof {
        reveal_strlit("&& ret=0\n");
        reveal_strlit(":CONTEXT: ");
        reveal_strlit(":NAMESPACE: ");
        reveal_strlit(":secret -- Name of the secret:");
        reveal_strlit("::key -- Key in secret:");
    }
    let block = completion_fragment(fragment_source);
    let s1 = replace_all(generated, "&& ret=0\n", block.as_str());
    let s2 = replace_all(s1.as_str(), ":CONTEXT: ", ":CONTEXT:->contexts ");
    let s3 = replace_all(s2.as_str(), ":NAMESPACE: ", ":NAMESPACE:->namespaces ");
    let s4 = replace_all(
        s3.as_str(),
        ":secret -- Name of the secret:",
        ":secret -- Name of the secret:->secrets",
    );
    replace_all(s4.as_str(), "::key -- Key in secret:", "::key -- Key in secret:->keys")
}

} // verus!
