use vstd::prelude::*;
use crate::text::{str_eq, views};

verus! {

/// The extension carried by raw profile files.
pub open spec fn profraw_ext() -> Seq<char> {
    "profraw"@
}

/// The raw-profile test used by the sanitizer, as a value.
pub open spec fn profraw_pred() -> spec_fn(Seq<char>) -> bool {
    |n: Seq<char>| has_profraw_ext(n)
}

/// `name`, taken as a path's file name, has the raw-profile extension: a dot
/// that is not its first character, with no later dot, followed by `profraw`.
pub open spec fn has_profraw_ext(name: Seq<char>) -> bool {
    exists|k: int|
        0 < k < name.len() && #[trigger] name[k] == '.' && (forall|j: int|
            k < j < name.len() ==> name[j] != '.') && name.subrange(k + 1, name.len() as int)
            == profraw_ext()
}

/// Does this file name carry the raw-profile extension?
pub fn is_profraw(name: &str) -> (b: bool)
    ensures
        b == has_profraw_ext(name@),
{
    let n = name.unicode_len();
    let mut i: usize = 0;
    let mut k: usize = 0;
    let mut found = false;
    while i < n
        invariant
            i <= n,
            n == name@.len(),
            found ==> k < i && name@[k as int] == '.' && (forall|j: int|
                k < j < i ==> name@[j] != '.'),
            !found ==> forall|j: int| 0 <= j < i ==> name@[j] != '.',
        decreases n - i,
    {
        if name.get_char(i) == '.' {
            k = i;
            found = true;
        }
        i = i + 1;
    }
    if !found || k == 0 {
        return false;
    }
    let suffix = name.substring_char(k + 1, n);
    let r = str_eq(suffix, "profraw");
    if r {
        assert(has_profraw_ext(name@));
    }
    r
}

/// The file names that carry the raw-profile extension, in their given order:
/// exactly these are removed by the sanitizer, and every other name is left
/// untouched.
pub fn select_profraw(names: &Vec<String>) -> (r: Vec<String>)
    ensures
        views(r@) == views(names@).filter(profraw_pred()),
{
    let mut r: Vec<String> = Vec::new();
    proof {
        reveal(Seq::filter);
        assert(views(r@) =~= views(names@).take(0).filter(profraw_pred()));
    }
    let mut i: usize = 0;
    while i < names.len()
        invariant
            i <= names.len(),
            views(r@) == views(names@).take(i as int).filter(profraw_pred()),
        decreases names.len() - i,
    {
        let ghost old_r = views(r@);
        let name = &names[i];
        if is_profraw(name.as_str()) {
            r.push(name.clone());
        }
        proof {
            reveal(Seq::filter);
            let t = views(names@).take(i + 1);
            assert(t.drop_last() =~= views(names@).take(i as int));
            assert(t.last() == names@[i as int]@);
            assert(profraw_pred()(t.last()) == has_profraw_ext(names@[i as int]@));
            if has_profraw_ext(names@[i as int]@) {
                assert(views(r@) =~= old_r + seq![names@[i as int]@]);
                assert(t.filter(profraw_pred()) == t.drop_last().filter(profraw_pred()).push(t.last()));
                assert(views(r@) =~= t.filter(profraw_pred()));
            } else {
                assert(views(r@) =~= old_r);
                assert(t.filter(profraw_pred()) == t.drop_last().filter(profraw_pred()));
                assert(views(r@) =~= t.filter(profraw_pred()));
            }
        }
        i = i + 1;
    }
    proof {
        assert(views(names@).take(i as int) =~= views(names@));
    }
    r
}

/// The one stale report the sanitizer also removes, relative to the coverage
/// directory: the interchange-format file of the prior run.
pub fn stale_report_file() -> (r: String)
    ensures
        r@ == "output/lcov.info"@,
{
    String::from_str("output/lcov.info")
}

/// Every selected name carries the extension, every matching name of the
/// input is kept, and nothing else is: the sanitizer removes exactly the
/// raw-profile files and touches no other name.
pub proof fn lemma_selection_exact(names: Seq<Seq<char>>)
    ensures
        forall|i: int|
            0 <= i < names.filter(profraw_pred()).len() ==> has_profraw_ext(
                #[trigger] names.filter(profraw_pred())[i],
            ),
        forall|i: int|
            0 <= i < names.len() && has_profraw_ext(#[trigger] names[i]) ==> names.filter(
                profraw_pred(),
            ).contains(names[i]),
        forall|i: int|
            0 <= i < names.len() && !has_profraw_ext(#[trigger] names[i]) ==> !names.filter(
                profraw_pred(),
            ).contains(names[i]),
{
    broadcast use vstd::seq_lib::group_filter_ensures;

    assert forall|i: int| 0 <= i < names.len() && !has_profraw_ext(names[i])
        implies !names.filter(profraw_pred()).contains(names[i]) by {
        if names.filter(profraw_pred()).contains(names[i]) {
            let w = choose|w: int| 0 <= w < names.filter(profraw_pred()).len() && names.filter(profraw_pred())[w]
                == names[i];
        }
    }
}

} // verus!
