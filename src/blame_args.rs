//! The annotation command's arguments: the engine's own flags are taken out,
//! and options given with a separated value are joined into the equals form
//! that the native tool expects.
use vstd::prelude::*;
use crate::text::string_views;

verus! {

/// The option takes a value, which may follow it as a separate argument.
pub open spec fn takes_value(a: Seq<char>) -> bool {
    a == "--abbrev"@ || a == "--date"@
}

/// The arguments handed to the native tool: `--mark-unknown` is dropped, and
/// `--abbrev N` and `--date MODE` become `--abbrev=N` and `--date=MODE`.
pub open spec fn native_args(args: Seq<Seq<char>>) -> Seq<Seq<char>>
    decreases args.len(),
{
    if args.len() == 0 {
        Seq::empty()
    } else if args[0] == "--mark-unknown"@ {
        native_args(args.skip(1))
    } else if takes_value(args[0]) && args.len() >= 2 {
        seq![args[0] + "="@ + args[1]] + native_args(args.skip(2))
    } else {
        seq![args[0]] + native_args(args.skip(1))
    }
}

/// The content is read from standard input: `--contents -` is given.
pub open spec fn contents_from_stdin(args: Seq<Seq<char>>) -> bool {
    exists|i: int| 0 <= i < args.len() - 1 && #[trigger] args[i] == "--contents"@ && args[i + 1] == "-"@
}

/// The engine's options for one annotation, and what the native tool gets.
pub struct BlameOptions {
    pub mark_unknown: bool,
    pub contents_from_stdin: bool,
    pub native_args: Vec<String>,
}

fn eq_lit(s: &String, lit: &str) -> (r: bool)
    ensures
        r == (s@ == lit@),
{
    *s == lit.to_owned()
}

/// Splits the annotation command's arguments into the engine's options and
/// the native tool's arguments.
pub fn parse_blame_args(args: &Vec<String>) -> (r: BlameOptions)
    ensures
        r.mark_unknown == string_views(args@).contains("--mark-unknown"@),
        r.contents_from_stdin == contents_from_stdin(string_views(args@)),
        string_views(r.native_args@) == native_args(string_views(args@)),
{
    let ghost a = string_views(args@);
    let mut out: Vec<String> = Vec::new();
    let mut mark_unknown = false;
    let mut from_stdin = false;
    let n = args.len();
    let mut i: usize = 0;
    assert(a.skip(0) =~= a);
    assert(string_views(out@) =~= Seq::<Seq<char>>::empty());
    assert(Seq::<Seq<char>>::empty() + native_args(a) =~= native_args(a));
    while i < n
        invariant
            n == args.len(),
            a == string_views(args@),
            i <= n,
            string_views(out@) + native_args(a.skip(i as int)) == native_args(a),
            mark_unknown == exists|k: int| 0 <= k < i && #[trigger] a[k] == "--mark-unknown"@,
            from_stdin == exists|k: int|
                0 <= k < i && k < n - 1 && #[trigger] a[k] == "--contents"@ && a[k + 1] == "-"@,
        decreases n - i,
    {
        let ghost rest = a.skip(i as int);
        let ghost before = out@;
        assert(rest[0] == a[i as int]);
        if i + 1 < n && eq_lit(&args[i], "--contents") && eq_lit(&args[i + 1], "-") {
            from_stdin = true;
        }
        if eq_lit(&args[i], "--mark-unknown") {
            mark_unknown = true;
            assert(rest.skip(1) =~= a.skip(i + 1));
            i = i + 1;
        } else if (eq_lit(&args[i], "--abbrev") || eq_lit(&args[i], "--date")) && i + 1 < n {
            let joined = args[i].clone().concat("=").concat(args[i + 1].as_str());
            out.push(joined);
            assert(rest[1] == a[i + 1]);
            assert(rest.skip(2) =~= a.skip(i + 2));
            assert(string_views(out@) =~= string_views(before).push(joined@));
            assert(string_views(out@) + native_args(a.skip(i + 2)) =~= string_views(before) + (
            seq![rest[0] + "="@ + rest[1]] + native_args(rest.skip(2))));
            if eq_lit(&args[i + 1], "--mark-unknown") {
                mark_unknown = true;
            }
            if i + 2 < n && eq_lit(&args[i + 1], "--contents") && eq_lit(&args[i + 2], "-") {
                from_stdin = true;
            }
            i = i + 2;
        } else {
            out.push(args[i].clone());
            assert(rest.skip(1) =~= a.skip(i + 1));
            assert(string_views(out@) =~= string_views(before).push(a[i as int]));
            assert(string_views(out@) + native_args(a.skip(i + 1)) =~= string_views(before) + (
            seq![rest[0]] + native_args(rest.skip(1))));
            i = i + 1;
        }
    }
    assert(a.skip(n as int) =~= Seq::<Seq<char>>::empty());
    assert(string_views(out@) =~= string_views(out@) + native_args(a.skip(n as int)));
    BlameOptions { mark_unknown, contents_from_stdin: from_stdin, native_args: out }
}

} // verus!
