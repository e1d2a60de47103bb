use vstd::prelude::*;

verus! {

/// The line with one trailing newline removed.
pub open spec fn chomped(s: Seq<char>) -> Seq<char> {
    if s.len() > 0 && s.last() == '\n' {
        s.drop_last()
    } else {
        s
    }
}

/// The directory part of a path: everything before its last separator, with
/// a bare root kept as it is and a separator-free path left empty.
pub open spec fn dir_of(t: Seq<char>) -> Seq<char>
    decreases t.len(),
{
    if t.len() == 0 {
        t
    } else if t.last() == '/' {
        if t.len() == 1 {
            t
        } else {
            t.drop_last()
        }
    } else {
        dir_of(t.drop_last())
    }
}

/// The directory holding the build manifest, read off the locator's one-line
/// output: the trailing newline goes, then the manifest file name.
pub open spec fn manifest_dir(out: Seq<char>) -> Seq<char> {
    dir_of(chomped(out))
}

proof fn lemma_dir_of_no_slash(t: Seq<char>)
    requires
        forall|j: int| 0 <= j < t.len() ==> t[j] != '/',
    ensures
        dir_of(t) == Seq::<char>::empty(),
    decreases t.len(),
{
    if t.len() > 0 {
        lemma_dir_of_no_slash(t.drop_last());
    }
    assert(dir_of(t) =~= Seq::<char>::empty());
}

proof fn lemma_dir_of_last_slash(t: Seq<char>, k: int)
    requires
        0 <= k < t.len(),
        t[k] == '/',
        forall|j: int| k < j < t.len() ==> t[j] != '/',
    ensures
        dir_of(t) == if k == 0 {
            t.subrange(0, 1)
        } else {
            t.subrange(0, k)
        },
    decreases t.len(),
{
    if t.last() == '/' {
        assert(k == t.len() - 1);
        if t.len() == 1 {
            assert(t =~= t.subrange(0, 1));
        } else {
            assert(t.drop_last() =~= t.subrange(0, k));
        }
    } else {
        assert(k < t.len() - 1);
        lemma_dir_of_last_slash(t.drop_last(), k);
        assert(t.drop_last().subrange(0, k) =~= t.subrange(0, k));
        if k == 0 {
            assert(t.drop_last().subrange(0, 1) =~= t.subrange(0, 1));
        }
    }
}

/// The package directory taken from the locator's raw output line.
pub fn package_dir_from_output(out: &str) -> (r: String)
    ensures
        r@ == manifest_dir(out@),
{
    let n = out.unicode_len();
    let m = if n > 0 && out.get_char(n - 1) == '\n' {
        n - 1
    } else {
        n
    };
    let ghost t = out@.subrange(0, m as int);
    proof {
        assert(t =~= chomped(out@));
    }
    let mut i: usize = 0;
    let mut k: usize = 0;
    let mut found = false;
    while i < m
        invariant
            i <= m <= n,
            n == out@.len(),
            t == out@.subrange(0, m as int),
            found ==> k < i && t[k as int] == '/' && (forall|j: int| k < j < i ==> t[j] != '/'),
            !found ==> forall|j: int| 0 <= j < i ==> t[j] != '/',
        decreases m - i,
    {
        if out.get_char(i) == '/' {
            k = i;
            found = true;
        }
        i = i + 1;
    }
    if !found {
        proof {
            lemma_dir_of_no_slash(t);
        }
        let r = String::new();
        proof {
            assert(r@ =~= manifest_dir(out@));
        }
        return r;
    }
    proof {
        lemma_dir_of_last_slash(t, k as int);
    }
    let end = if k == 0 {
        1
    } else {
        k
    };
    let sub = out.substring_char(0, end);
    let r = String::from_str(sub);
    proof {
        assert(out@.subrange(0, end as int) =~= t.subrange(0, end as int));
    }
    r
}

} // verus!
