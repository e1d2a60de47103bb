use vstd::prelude::*;
use crate::text::{str_eq, views};
use crate::tier::{all_digits, digit_val, digits_val, is_digit};

verus! {

/// The forwarded argument list with one optional leading subcommand token
/// stripped: invoked as a build-tool subcommand, the first token repeats the
/// command's own name and must not reach the test runner.
pub open spec fn stripped(args: Seq<Seq<char>>) -> Seq<Seq<char>> {
    if args.len() > 0 && args[0] == "cover"@ {
        args.drop_first()
    } else {
        args
    }
}

/// Drop the optional leading `cover` token; every other token passes through
/// unchanged and in order.
pub fn forwarded_args(args: Vec<String>) -> (r: Vec<String>)
    ensures
        views(r@) == stripped(views(args@)),
{
    let mut args = args;
    if args.len() > 0 && str_eq(args[0].as_str(), "cover") {
        let ghost before = args@;
        args.remove(0);
        proof {
            assert(views(args@) =~= views(before).drop_first());
        }
    }
    args
}

/// The output formats the report driver asks of the aggregation tool.
#[derive(Clone, Copy, Debug, PartialEq, Eq, Structural)]
pub enum ReportFormat {
    Markdown,
    Html,
    Lcov,
}

/// The name under which the aggregation tool knows each format.
pub open spec fn format_name(f: ReportFormat) -> Seq<char> {
    match f {
        ReportFormat::Markdown => "markdown"@,
        ReportFormat::Html => "html"@,
        ReportFormat::Lcov => "lcov"@,
    }
}

/// The filter arguments shared by every report invocation: scan the tree at
/// `.`, look up binaries in `deps`, enable branch coverage, skip files that
/// do not exist, ignore paths leaving the tree or absolute, and exclude the
/// region from a test-module header to the next closing brace.
pub open spec fn base_args(deps: Seq<char>) -> Seq<Seq<char>> {
    seq![
        "."@,
        "--binary-path"@,
        deps,
        "-s"@,
        "."@,
        "--branch"@,
        "--ignore-not-existing"@,
        "--ignore"@,
        "../*"@,
        "--ignore"@,
        "/*"@,
        "--excl-start"@,
        "^mod test"@,
        "--excl-stop"@,
        "^}"@,
    ]
}

/// The full argument list of one report invocation: the shared filters, the
/// format, and the output target where the format writes to a path.
pub open spec fn report_args(deps: Seq<char>, f: ReportFormat, out: Option<Seq<char>>) -> Seq<
    Seq<char>,
> {
    base_args(deps) + seq!["-t"@, format_name(f)] + (match out {
        Some(o) => seq!["-o"@, o],
        None => Seq::empty(),
    })
}

fn format_arg(f: ReportFormat) -> (r: String)
    ensures
        r@ == format_name(f),
{
    match f {
        ReportFormat::Markdown => String::from_str("markdown"),
        ReportFormat::Html => String::from_str("html"),
        ReportFormat::Lcov => String::from_str("lcov"),
    }
}

/// Assemble the argument list handed to the aggregation tool for one report.
pub fn grcov_args(deps_path: &str, f: ReportFormat, out: Option<&str>) -> (r: Vec<String>)
    ensures
        out is Some ==> views(r@) == report_args(deps_path@, f, Some(out->Some_0@)),
        out is None ==> views(r@) == report_args(deps_path@, f, None),
{
    let mut r: Vec<String> = Vec::new();
    r.push(String::from_str("."));
    r.push(String::from_str("--binary-path"));
    r.push(String::from_str(deps_path));
    r.push(String::from_str("-s"));
    r.push(String::from_str("."));
    r.push(String::from_str("--branch"));
    r.push(String::from_str("--ignore-not-existing"));
    r.push(String::from_str("--ignore"));
    r.push(String::from_str("../*"));
    r.push(String::from_str("--ignore"));
    r.push(String::from_str("/*"));
    r.push(String::from_str("--excl-start"));
    r.push(String::from_str("^mod test"));
    r.push(String::from_str("--excl-stop"));
    r.push(String::from_str("^}"));
    r.push(String::from_str("-t"));
    r.push(format_arg(f));
    match out {
        Some(o) => {
            r.push(String::from_str("-o"));
            r.push(String::from_str(o));
            proof {
                assert(views(r@) =~= report_args(deps_path@, f, Some(o@)));
            }
        },
        None => {
            proof {
                assert(views(r@) =~= report_args(deps_path@, f, None));
            }
        },
    }
    r
}

/// The templated raw-profile file name handed to the instrumented test run.
pub open spec fn profile_template() -> Seq<char> {
    "cargo-test-%p-%m.profraw"@
}

/// The raw-profile name template: the test runner's processes expand `%p` to
/// their process id and `%m` to their module signature, so concurrent test
/// binaries write to distinct files.
pub fn profile_file_template() -> (r: String)
    ensures
        r@ == profile_template(),
{
    String::from_str("cargo-test-%p-%m.profraw")
}

/// The environment handed to the instrumented test run: incremental
/// compilation off, coverage instrumentation on for the compiler and for
/// documentation tests, and the raw profile directed to the templated name
/// inside the coverage directory.
pub open spec fn env_overrides() -> Seq<(Seq<char>, Seq<char>)> {
    seq![
        ("CARGO_INCREMENTAL"@, "0"@),
        ("RUSTFLAGS"@, "-Cinstrument-coverage"@),
        ("RUSTDOCFLAGS"@, "-Cinstrument-coverage"@),
        ("LLVM_PROFILE_FILE"@, "target/coverage/"@ + profile_template()),
    ]
}

/// The (name, value) environment overrides set on the test subprocess.
pub fn instrumentation_env() -> (r: Vec<(String, String)>)
    ensures
        r@.len() == env_overrides().len(),
        forall|i: int|
            0 <= i < r@.len() ==> (#[trigger] r@[i]).0@ == env_overrides()[i].0 && r@[i].1@
                == env_overrides()[i].1,
{
    let mut r: Vec<(String, String)> = Vec::new();
    r.push((String::from_str("CARGO_INCREMENTAL"), String::from_str("0")));
    r.push((String::from_str("RUSTFLAGS"), String::from_str("-Cinstrument-coverage")));
    r.push((String::from_str("RUSTDOCFLAGS"), String::from_str("-Cinstrument-coverage")));
    let mut profile = String::from_str("target/coverage/");
    profile.append(profile_file_template().as_str());
    r.push((String::from_str("LLVM_PROFILE_FILE"), profile));
    r
}

/// Decimal digit character of `d`.
pub open spec fn digit_char(d: int) -> char {
    if d == 0 {
        '0'
    } else if d == 1 {
        '1'
    } else if d == 2 {
        '2'
    } else if d == 3 {
        '3'
    } else if d == 4 {
        '4'
    } else if d == 5 {
        '5'
    } else if d == 6 {
        '6'
    } else if d == 7 {
        '7'
    } else if d == 8 {
        '8'
    } else {
        '9'
    }
}

/// The decimal numeral of `n`.
pub open spec fn dec_digits(n: int) -> Seq<char>
    decreases n when n >= 0 via dec_digits_dec
{
    if n < 10 {
        seq![digit_char(n)]
    } else {
        dec_digits(n / 10).push(digit_char(n % 10))
    }
}

#[via_fn]
proof fn dec_digits_dec(n: int) {
    if n >= 10 {
        vstd::arithmetic::div_mod::lemma_div_decreases(n, 10);
    }
}

/// The decimal numeral of `n` is made of digits and reads back as `n`.
pub proof fn lemma_dec_digits(n: int)
    requires
        n >= 0,
    ensures
        dec_digits(n).len() >= 1,
        all_digits(dec_digits(n)),
        digits_val(dec_digits(n)) == n,
    decreases n,
{
    if n < 10 {
        assert(seq![digit_char(n)].drop_last() =~= Seq::<char>::empty());
        assert(digits_val(Seq::<char>::empty()) == 0);
        assert(digit_val(digit_char(n)) == n);
    } else {
        vstd::arithmetic::div_mod::lemma_div_decreases(n, 10);
        vstd::arithmetic::div_mod::lemma_fundamental_div_mod(n, 10);
        lemma_dec_digits(n / 10);
        let s = dec_digits(n);
        assert(s.drop_last() =~= dec_digits(n / 10));
        assert(digit_val(digit_char(n % 10)) == n % 10);
        assert forall|i: int| 0 <= i < s.len() implies is_digit(#[trigger] s[i]) by {
            if i < s.len() - 1 {
                assert(dec_digits(n / 10)[i] == s[i]);
            }
        }
    }
}

/// The raw-profile file name once the test runner has expanded the template
/// for process id `p` and module signature `m`.
pub open spec fn expanded_profile_name(p: int, m: int) -> Seq<char> {
    "cargo-test-"@ + dec_digits(p) + "-"@ + dec_digits(m) + ".profraw"@
}

/// Two numerals around a non-digit separator cut the string in only one way.
proof fn lemma_numeral_separator(x1: Seq<char>, y1: Seq<char>, x2: Seq<char>, y2: Seq<char>, sep: char)
    requires
        all_digits(x1),
        all_digits(x2),
        !is_digit(sep),
        x1 + seq![sep] + y1 == x2 + seq![sep] + y2,
    ensures
        x1 == x2,
        y1 == y2,
{
    let s = x1 + seq![sep] + y1;
    assert((x1 + seq![sep] + y1).len() == x1.len() + 1 + y1.len());
    assert((x2 + seq![sep] + y2).len() == x2.len() + 1 + y2.len());
    if x1.len() < x2.len() {
        assert(s[x1.len() as int] == sep);
        assert((x2 + seq![sep] + y2)[x1.len() as int] == x2[x1.len() as int]);
        assert(is_digit(x2[x1.len() as int]));
        assert(false);
    }
    if x2.len() < x1.len() {
        assert(s[x2.len() as int] == x1[x2.len() as int]);
        assert((x2 + seq![sep] + y2)[x2.len() as int] == sep);
        assert(is_digit(x1[x2.len() as int]));
        assert(false);
    }
    assert forall|i: int| 0 <= i < x1.len() implies x1[i] == x2[i] by {
        assert(s[i] == x1[i]);
        assert((x2 + seq![sep] + y2)[i] == x2[i]);
    }
    assert(x1 =~= x2);
    assert forall|i: int| 0 <= i < y1.len() implies y1[i] == y2[i] by {
        assert(s[x1.len() + 1 + i] == y1[i]);
        assert((x2 + seq![sep] + y2)[x1.len() + 1 + i] == y2[i]);
    }
    assert(y1 =~= y2);
}

/// The expanded name regrouped around its two separators.
proof fn lemma_expanded_shape(p: int, m: int)
    ensures
        expanded_profile_name(p, m) == "cargo-test-"@ + (dec_digits(p) + seq!['-'] + (dec_digits(
            m,
        ) + seq!['.'] + "profraw"@)),
{
    reveal_strlit("-");
    reveal_strlit(".profraw");
    reveal_strlit("profraw");
    let pre = "cargo-test-"@;
    let dp = dec_digits(p);
    let dm = dec_digits(m);
    let y = dm + seq!['.'] + "profraw"@;
    assert("-"@ =~= seq!['-']);
    assert(".profraw"@ =~= seq!['.'] + "profraw"@);
    vstd::seq_lib::lemma_concat_associative(pre, dp, seq!['-']);
    vstd::seq_lib::lemma_concat_associative(pre + (dp + seq!['-']), dm, seq!['.'] + "profraw"@);
    vstd::seq_lib::lemma_concat_associative(dm, seq!['.'], "profraw"@);
    vstd::seq_lib::lemma_concat_associative(pre, dp + seq!['-'], y);
}

/// Distinct (process id, module signature) pairs never collide in the raw
/// profile file they write: the template's two placeholders keep every pair's
/// expanded file name unique.
pub proof fn lemma_profile_names_distinct(p1: int, m1: int, p2: int, m2: int)
    requires
        p1 >= 0,
        m1 >= 0,
        p2 >= 0,
        m2 >= 0,
        !(p1 == p2 && m1 == m2),
    ensures
        expanded_profile_name(p1, m1) != expanded_profile_name(p2, m2),
{
    lemma_dec_digits(p1);
    lemma_dec_digits(p2);
    lemma_dec_digits(m1);
    lemma_dec_digits(m2);
    if expanded_profile_name(p1, m1) == expanded_profile_name(p2, m2) {
        let u1 = dec_digits(p1) + seq!['-'] + (dec_digits(m1) + seq!['.'] + "profraw"@);
        let u2 = dec_digits(p2) + seq!['-'] + (dec_digits(m2) + seq!['.'] + "profraw"@);
        lemma_expanded_shape(p1, m1);
        lemma_expanded_shape(p2, m2);
        lemma_cancel_prefix("cargo-test-"@, u1, u2);
        lemma_numeral_separator(
            dec_digits(p1),
            dec_digits(m1) + seq!['.'] + "profraw"@,
            dec_digits(p2),
            dec_digits(m2) + seq!['.'] + "profraw"@,
            '-',
        );
        assert(p1 == p2);
        lemma_numeral_separator(dec_digits(m1), "profraw"@, dec_digits(m2), "profraw"@, '.');
        assert(m1 == m2);
    }
}

/// A shared prefix cancels on both sides of a sequence equality.
proof fn lemma_cancel_prefix(a: Seq<char>, u1: Seq<char>, u2: Seq<char>)
    requires
        a + u1 == a + u2,
    ensures
        u1 == u2,
{
    assert((a + u1).len() == a.len() + u1.len());
    assert((a + u2).len() == a.len() + u2.len());
    assert forall|i: int| 0 <= i < u1.len() implies u1[i] == u2[i] by {
        assert((a + u1)[a.len() + i] == u1[i]);
        assert((a + u2)[a.len() + i] == u2[i]);
    }
    assert(u1 =~= u2);
}

} // verus!
