use vstd::prelude::*;

use crate::text::{text_eq, texts};

verus! {

/// What the command line asks for.
pub struct CommandLine {
    /// Whether to detach from the terminal that started the program.
    pub daemonize: bool,
    /// The program to run in the first tab, instead of the user's shell.
    pub shell_program: Option<String>,
    /// Its arguments.
    pub shell_args: Vec<String>,
    /// Options that were not recognized and are ignored.
    pub ignored: Vec<String>,
}

/// Whether an argument ends the options: `-e`, `--command` or `--`.
pub open spec fn ends_options(a: Seq<char>) -> bool {
    a == "-e"@ || a == "--command"@ || a == "--"@
}

/// Position of the first argument that ends the options, or the number of
/// arguments when none does.
pub open spec fn options_end(args: Seq<Seq<char>>) -> int
    decreases args.len(),
{
    if args.len() == 0 {
        0
    } else if ends_options(args[0]) {
        0
    } else {
        1 + options_end(args.drop_first())
    }
}

/// The arguments after the program name.
pub open spec fn after_program(args: Seq<Seq<char>>) -> Seq<Seq<char>> {
    if args.len() == 0 {
        args
    } else {
        args.drop_first()
    }
}

/// The options: the arguments before the first one that ends the options.
pub open spec fn option_args(args: Seq<Seq<char>>) -> Seq<Seq<char>> {
    let rest = after_program(args);
    rest.take(options_end(rest))
}

/// The command to run: the arguments after the one that ends the options
/// (none when no argument ends them).
pub open spec fn command_args(args: Seq<Seq<char>>) -> Seq<Seq<char>> {
    let rest = after_program(args);
    let t = options_end(rest);
    if t < rest.len() {
        rest.skip(t + 1)
    } else {
        Seq::<Seq<char>>::empty()
    }
}

/// The options that are not recognized, in order.
pub open spec fn unrecognized(opts: Seq<Seq<char>>) -> Seq<Seq<char>>
    decreases opts.len(),
{
    if opts.len() == 0 {
        opts
    } else if opts.last() == "--no-daemon"@ {
        unrecognized(opts.drop_last())
    } else {
        unrecognized(opts.drop_last()).push(opts.last())
    }
}

proof fn lemma_options_end_bound(args: Seq<Seq<char>>)
    ensures
        0 <= options_end(args) <= args.len(),
        options_end(args) < args.len() ==> ends_options(args[options_end(args)]),
        forall|k: int| 0 <= k < options_end(args) ==> !ends_options(#[trigger] args[k]),
    decreases args.len(),
{
    if args.len() > 0 && !ends_options(args[0]) {
        lemma_options_end_bound(args.drop_first());
        assert forall|k: int| 0 <= k < options_end(args) implies !ends_options(#[trigger] args[k]) by {
            if k > 0 {
                assert(args[k] == args.drop_first()[k - 1]);
            }
        }
    }
}

proof fn lemma_options_end_at(args: Seq<Seq<char>>, t: int)
    requires
        0 <= t <= args.len(),
        t < args.len() ==> ends_options(args[t]),
        forall|k: int| 0 <= k < t ==> !ends_options(#[trigger] args[k]),
    ensures
        options_end(args) == t,
    decreases args.len(),
{
    if args.len() > 0 && t > 0 {
        lemma_options_end_at(args.drop_first(), t - 1);
        assert forall|k: int| 0 <= k < t - 1 implies !ends_options(#[trigger] args.drop_first()[k]) by {
            assert(args.drop_first()[k] == args[k + 1]);
        }
    }
}

/// Reads the command line (the program name first): options up to `-e`,
/// `--command` or `--`, of which `--no-daemon` keeps the program attached to
/// its terminal and others are ignored; after that, the program to run and
/// its arguments.
pub fn parse_args(args: &Vec<String>) -> (r: CommandLine)
    ensures
        r.daemonize == !option_args(texts(args@)).contains("--no-daemon"@),
        texts(r.ignored@) == unrecognized(option_args(texts(args@))),
        match r.shell_program {
            Some(p) => command_args(texts(args@)).len() > 0 && p@ == command_args(texts(args@))[0]
                && texts(r.shell_args@) == command_args(texts(args@)).drop_first(),
            None => command_args(texts(args@)).len() == 0 && r.shell_args@.len() == 0,
        },
{
    let ghost all = texts(args@);
    let ghost rest = after_program(all);
    let n = args.len();
    let mut i: usize = if n > 0 { 1 } else { 0 };
    let mut daemonize = true;
    let mut ignored: Vec<String> = Vec::new();
    let mut stopped = false;
    proof {
        assert(rest =~= all.skip(i as int));
        lemma_options_end_bound(rest);
    }
    while i < n && !stopped
        invariant
            n == args@.len(),
            all == texts(args@),
            rest == after_program(all),
            rest =~= all.skip((if n > 0 { 1int } else { 0int })),
            (if n > 0 { 1int } else { 0int }) <= i <= n,
            forall|k: int| 0 <= k < options_end(rest) ==> !ends_options(#[trigger] rest[k]),
            options_end(rest) <= rest.len(),
            options_end(rest) < rest.len() ==> ends_options(rest[options_end(rest)]),
            !stopped ==> i - (if n > 0 { 1int } else { 0int }) <= options_end(rest),
            stopped ==> i - (if n > 0 { 1int } else { 0int }) == options_end(rest) + 1,
            daemonize == !rest.take(if stopped { options_end(rest) } else { i - (if n > 0 { 1int } else { 0int }) }).contains("--no-daemon"@),
            texts(ignored@) == unrecognized(rest.take(if stopped { options_end(rest) } else { i - (if n > 0 { 1int } else { 0int }) })),
        decreases n - i,
    {
        let ghost j = i - (if n > 0 { 1int } else { 0int });
        let a = args[i].as_str();
        assert(rest[j] == a@);
        if text_eq(a, "-e") || text_eq(a, "--command") || text_eq(a, "--") {
            stopped = true;
            proof {
                assert(ends_options(rest[j]));
                if j < options_end(rest) {
                    assert(!ends_options(rest[j]));
                }
            }
        } else {
            proof {
                assert(!ends_options(rest[j]));
                assert(j < options_end(rest));
                assert(rest.take(j + 1).drop_last() =~= rest.take(j));
                assert(rest.take(j + 1).last() == a@);
                assert(rest.take(j + 1) =~= rest.take(j).push(a@));
            }
            if text_eq(a, "--no-daemon") {
                daemonize = false;
            } else {
                ignored.push(args[i].clone());
                proof {
                    assert(texts(ignored@) =~= unrecognized(rest.take(j)).push(a@));
                }
            }
            proof {
                if !daemonize {
                    assert(rest.take(j + 1)[j] == "--no-daemon"@ || rest.take(j).contains("--no-daemon"@));
                    if rest.take(j).contains("--no-daemon"@) {
                        let k = choose|k: int| 0 <= k < rest.take(j).len() && rest.take(j)[k] == "--no-daemon"@;
                        assert(rest.take(j + 1)[k] == "--no-daemon"@);
                    }
                } else {
                    assert forall|k: int| 0 <= k < rest.take(j + 1).len() implies #[trigger] rest.take(j + 1)[k] != "--no-daemon"@ by {
                        if k < j {
                            assert(rest.take(j + 1)[k] == rest.take(j)[k]);
                        }
                    }
                }
            }
        }
        i = i + 1;
    }
    proof {
        let s = if n > 0 { 1int } else { 0int };
        if !stopped {
            assert(i == n);
            lemma_options_end_at(rest, i - s);
            assert(i - s == rest.len());
        }
    }
    let mut shell_program: Option<String> = None;
    let mut shell_args: Vec<String> = Vec::new();
    if stopped && i < n {
        shell_program = Some(args[i].clone());
        let mut k: usize = i + 1;
        while k < n
            invariant
                n == args@.len(),
                i < n,
                i + 1 <= k <= n,
                all == texts(args@),
                texts(shell_args@) == all.subrange(i + 1, k as int),
            decreases n - k,
        {
            shell_args.push(args[k].clone());
            assert(all.subrange(i + 1, k + 1) =~= all.subrange(i + 1, k as int).push(args@[k as int]@));
            k = k + 1;
        }
        proof {
            let s = if n > 0 { 1int } else { 0int };
            let t = options_end(rest);
            assert(command_args(all) =~= all.subrange(i as int, n as int));
            assert(all.subrange(i as int, n as int).drop_first() =~= all.subrange(i + 1, n as int));
        }
    } else {
        proof {
            let s = if n > 0 { 1int } else { 0int };
            if stopped {
                assert(options_end(rest) + 1 == rest.len());
                assert(rest.skip(options_end(rest) + 1) =~= Seq::<Seq<char>>::empty());
            }
            assert(command_args(all).len() == 0);
        }
    }
    CommandLine { daemonize, shell_program, shell_args, ignored }
}

/// The program stays attached to its terminal exactly when `--no-daemon`
/// is among the options, and every argument after the one that ends the
/// options belongs to the command, in order.
pub proof fn lemma_command_line_split(args: Seq<Seq<char>>)
    ensures
        option_args(args).len() + command_args(args).len() + (if options_end(after_program(args))
            < after_program(args).len() {
            1int
        } else {
            0int
        }) == after_program(args).len(),
        forall|k: int| 0 <= k < option_args(args).len() ==> !ends_options(#[trigger] option_args(args)[k]),
{
    lemma_options_end_bound(after_program(args));
}

} // verus!
