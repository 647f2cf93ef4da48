//! The argument partitioner: splits the raw process argument vector into
//! tool-owned arguments and pass-through arguments for the wrapped search
//! engine, preserving relative order within each class.

use vstd::prelude::*;

verus! {

/// One raw process argument: valid text, or bytes that are not valid text
/// (which can only be a filename or pattern).
#[derive(Debug)]
pub enum Argument {
    Text(String),
    Raw(Vec<u8>),
}

/// Model of a raw argument.
pub enum ArgumentV {
    Text(Seq<char>),
    Raw(Seq<u8>),
}

impl View for Argument {
    type V = ArgumentV;

    open spec fn view(&self) -> ArgumentV {
        match self {
            Argument::Text(s) => ArgumentV::Text(s@),
            Argument::Raw(b) => ArgumentV::Raw(b@),
        }
    }
}

impl DeepView for Argument {
    type V = ArgumentV;

    open spec fn deep_view(&self) -> ArgumentV {
        self.view()
    }
}

/// Whether `p` is a prefix of `s`.
pub open spec fn has_prefix(s: Seq<char>, p: Seq<char>) -> bool {
    p.len() <= s.len() && s.subrange(0, p.len() as int) == p
}

/// Whether an argument after the first is tool-owned: valid text that
/// carries the tool's own flag prefix, the forwarded-to-engine prefix, or
/// one of the help/version forms. Anything else, including any argument
/// that is not valid text, passes through to the wrapped engine.
pub open spec fn tool_owned_arg(a: ArgumentV) -> bool {
    match a {
        ArgumentV::Text(s) => has_prefix(s, "--rga-"@) || has_prefix(s, "--rg-"@)
            || s == "--help"@ || s == "-h"@ || s == "--version"@ || s == "-V"@,
        ArgumentV::Raw(_) => false,
    }
}

/// The tool-owned arguments among `s`, in order.
pub open spec fn owned_part(s: Seq<ArgumentV>) -> Seq<ArgumentV>
    decreases s.len(),
{
    if s.len() == 0 {
        Seq::empty()
    } else if tool_owned_arg(s.last()) {
        owned_part(s.drop_last()).push(s.last())
    } else {
        owned_part(s.drop_last())
    }
}

/// The pass-through arguments among `s`, in order.
pub open spec fn passthrough_part(s: Seq<ArgumentV>) -> Seq<ArgumentV>
    decreases s.len(),
{
    if s.len() == 0 {
        Seq::empty()
    } else if !tool_owned_arg(s.last()) {
        passthrough_part(s.drop_last()).push(s.last())
    } else {
        passthrough_part(s.drop_last())
    }
}

/// The partition is stable and complete: every argument lands in exactly
/// one class, each class keeps the original relative order, and each
/// element of a class satisfies that class's test.
pub proof fn lemma_partition_props(s: Seq<ArgumentV>)
    ensures
        owned_part(s).len() + passthrough_part(s).len() == s.len(),
        forall|t: int| 0 <= t < owned_part(s).len() ==> tool_owned_arg(
            #[trigger] owned_part(s)[t],
        ),
        forall|t: int| 0 <= t < passthrough_part(s).len() ==> !tool_owned_arg(
            #[trigger] passthrough_part(s)[t],
        ),
    decreases s.len(),
{
    if s.len() > 0 {
        lemma_partition_props(s.drop_last());
    }
}

fn arg_copy(a: &Argument) -> (r: Argument)
    ensures
        r@ == a@,
{
    match a {
        Argument::Text(s) => Argument::Text(s.clone()),
        Argument::Raw(b) => {
            let mut out: Vec<u8> = Vec::new();
            let mut i: usize = 0;
            while i < b.len()
                invariant
                    i <= b@.len(),
                    out@ =~= b@.subrange(0, i as int),
                decreases b@.len() - i,
            {
                out.push(b[i]);
                i = i + 1;
            }
            proof {
                assert(b@.subrange(0, b@.len() as int) =~= b@);
            }
            Argument::Raw(out)
        }
    }
}

fn is_tool_owned(a: &Argument) -> (r: bool)
    ensures
        r == tool_owned_arg(a@),
{
    match a {
        Argument::Text(s) => {
            let t = s.as_str();
            crate::text::str_starts_with(t, "--rga-") || crate::text::str_starts_with(t, "--rg-")
                || crate::text::str_eq_str(t, "--help") || crate::text::str_eq_str(t, "-h")
                || crate::text::str_eq_str(t, "--version") || crate::text::str_eq_str(t, "-V")
        }
        Argument::Raw(_) => false,
    }
}

/// Split the raw argument vector into the arguments the tool cares about
/// and the ones the wrapped engine cares about. The first argument (the
/// program name) is always tool-owned; each later argument is tool-owned
/// exactly when `tool_owned_arg` holds of it, and both classes keep their
/// original relative order (a stable partition).
pub fn split_args(argv: &Vec<Argument>) -> (r: (Vec<Argument>, Vec<Argument>))
    ensures
        argv@.len() == 0 ==> r.0.deep_view() == Seq::<ArgumentV>::empty()
            && r.1.deep_view() == Seq::<ArgumentV>::empty(),
        argv@.len() > 0 ==> r.0.deep_view() == seq![argv@[0]@].add(
            owned_part(argv.deep_view().skip(1)),
        ) && r.1.deep_view() == passthrough_part(argv.deep_view().skip(1)),
{
    let mut owned: Vec<Argument> = Vec::new();
    let mut pass: Vec<Argument> = Vec::new();
    if argv.len() == 0 {
        proof {
            assert(owned.deep_view() =~= Seq::<ArgumentV>::empty());
            assert(pass.deep_view() =~= Seq::<ArgumentV>::empty());
        }
        return (owned, pass);
    }
    owned.push(arg_copy(&argv[0]));
    let ghost tailv = argv.deep_view().skip(1);
    let mut i: usize = 1;
    while i < argv.len()
        invariant
            1 <= i <= argv@.len(),
            argv@.len() >= 1,
            tailv == argv.deep_view().skip(1),
            argv.deep_view().len() == argv@.len(),
            forall|j: int| 0 <= j < argv@.len() ==> #[trigger] argv.deep_view()[j] == argv@[j]@,
            owned.deep_view() =~= seq![argv@[0]@].add(
                owned_part(tailv.subrange(0, i - 1)),
            ),
            pass.deep_view() =~= passthrough_part(tailv.subrange(0, i - 1)),
        decreases argv@.len() - i,
    {
        let ghost pre = tailv.subrange(0, i - 1);
        let ghost post = tailv.subrange(0, i as int);
        proof {
            assert(post.drop_last() =~= pre);
            assert(post.last() == tailv[i - 1]);
            assert(tailv[i - 1] == argv@[i as int]@);
        }
        let ghost ow0 = owned.deep_view();
        let ghost pa0 = pass.deep_view();
        let a = arg_copy(&argv[i]);
        proof {
            assert(a@ == tailv[i - 1]);
        }
        if is_tool_owned(&a) {
            owned.push(a);
            proof {
                assert(owned.deep_view() =~= ow0.push(tailv[i - 1]));
            }
        } else {
            pass.push(a);
            proof {
                assert(pass.deep_view() =~= pa0.push(tailv[i - 1]));
            }
        }
        i = i + 1;
    }
    proof {
        assert(tailv.subrange(0, tailv.len() as int) =~= tailv);
        assert(tailv.subrange(0, argv@.len() - 1) =~= tailv);
    }
    (owned, pass)
}

/// Extract the flag texts of the tool-owned arguments, skipping the
/// leading program name.
pub open spec fn flag_texts(s: Seq<ArgumentV>) -> Seq<Seq<char>>
    decreases s.len(),
{
    if s.len() == 0 {
        Seq::empty()
    } else {
        match s.last() {
            ArgumentV::Text(t) => flag_texts(s.drop_last()).push(t),
            ArgumentV::Raw(_) => flag_texts(s.drop_last()),
        }
    }
}

/// The texts of the arguments after the program name; every such argument
/// must be text, as the partition guarantees for tool-owned arguments.
pub fn text_args(args: &Vec<Argument>) -> (r: Vec<String>)
    requires
        forall|i: int| 1 <= i < args@.len() ==> (#[trigger] args@[i]@) is Text,
    ensures
        args@.len() <= 1 ==> r.deep_view() == Seq::<Seq<char>>::empty(),
        args@.len() > 1 ==> r.deep_view() == flag_texts(args.deep_view().skip(1)),
{
    let mut out: Vec<String> = Vec::new();
    if args.len() <= 1 {
        proof {
            assert(out.deep_view() =~= Seq::<Seq<char>>::empty());
        }
        return out;
    }
    let ghost tailv = args.deep_view().skip(1);
    let mut i: usize = 1;
    while i < args.len()
        invariant
            1 <= i <= args@.len(),
            args@.len() > 1,
            forall|j: int| 1 <= j < args@.len() ==> (#[trigger] args@[j]@) is Text,
            tailv == args.deep_view().skip(1),
            args.deep_view().len() == args@.len(),
            forall|j: int| 0 <= j < args@.len() ==> #[trigger] args.deep_view()[j] == args@[j]@,
            out.deep_view() =~= flag_texts(tailv.subrange(0, i - 1)),
        decreases args@.len() - i,
    {
        let ghost pre = tailv.subrange(0, i - 1);
        let ghost post = tailv.subrange(0, i as int);
        proof {
            assert(post.drop_last() =~= pre);
            assert(post.last() == tailv[i - 1]);
            assert(tailv[i - 1] == args@[i as int]@);
        }
        let ghost o0 = out.deep_view();
        match &args[i] {
            Argument::Text(s) => {
                proof {
                    assert(tailv[i - 1] matches ArgumentV::Text(x) && x == s@);
                }
                out.push(s.clone());
                proof {
                    assert(out.deep_view() =~= o0.push(s@));
                }
            }
            Argument::Raw(_) => {
                proof {
                    assert(false);
                }
            }
        }
        i = i + 1;
    }
    proof {
        assert(tailv.subrange(0, args@.len() - 1) =~= tailv);
    }
    out
}

/// Prepend the wrapped engine's own help/version flags to the pass-through
/// arguments when the configuration requests them, version first.
pub fn forwarded_args(rg_help: bool, rg_version: bool, pass: &Vec<Argument>) -> (r: Vec<
    Argument,
>)
    ensures
        r.deep_view() == (if rg_version {
            seq![ArgumentV::Text("--version"@)]
        } else {
            Seq::<ArgumentV>::empty()
        }).add(
            if rg_help {
                seq![ArgumentV::Text("--help"@)]
            } else {
                Seq::<ArgumentV>::empty()
            },
        ).add(pass.deep_view()),
{
    let mut out: Vec<Argument> = Vec::new();
    if rg_version {
        out.push(Argument::Text(String::from_str("--version")));
    }
    if rg_help {
        out.push(Argument::Text(String::from_str("--help")));
    }
    let mut i: usize = 0;
    let ghost head = out.deep_view();
    while i < pass.len()
        invariant
            i <= pass@.len(),
            pass.deep_view().len() == pass@.len(),
            forall|j: int| 0 <= j < pass@.len() ==> #[trigger] pass.deep_view()[j]
                == pass@[j]@,
            out.deep_view() =~= head.add(pass.deep_view().subrange(0, i as int)),
        decreases pass@.len() - i,
    {
        let ghost o0 = out.deep_view();
        let a = arg_copy(&pass[i]);
        proof {
            assert(a@ == pass.deep_view()[i as int]);
        }
        out.push(a);
        proof {
            assert(out.deep_view() =~= o0.push(pass.deep_view()[i as int]));
        }
        i = i + 1;
    }
    proof {
        assert(pass.deep_view().subrange(0, pass@.len() as int) =~= pass.deep_view());
        assert(out.deep_view() =~= head.add(pass.deep_view()));
    }
    out
}

} // verus!
