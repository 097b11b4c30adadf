//! The command line of the extractor: which command the arguments ask for.

use vstd::prelude::*;
use crate::text::{char_at, char_len, owned, push_str, str_is};

verus! {

/// Options of `extract [--ent] <input.ent> [-o|--out <out_dir>]`.
#[derive(Debug)]
pub struct ExtractOptions {
    pub input: String,
    pub output: Option<String>,
}

/// What the command line asks for.
#[derive(Debug)]
pub enum Command {
    Extract(ExtractOptions),
    Help,
}

pub open spec fn starts_dash(s: Seq<char>) -> bool {
    s.len() > 0 && s[0] == '-'
}

/// The options so far after reading the arguments from `i` on, given the
/// input and output read before `i`.
pub open spec fn read_args(args: Seq<Seq<char>>, i: nat, input: Option<Seq<char>>, output: Option<Seq<char>>) -> Result<(Option<Seq<char>>, Option<Seq<char>>), Seq<char>>
    decreases args.len() - i,
{
    if i >= args.len() {
        Ok((input, output))
    } else {
        let a = args[i as int];
        if a == "-o"@ || a == "--output"@ || a == "--out"@ {
            if i + 1 < args.len() {
                read_args(args, i + 2, input, Some(args[(i + 1) as int]))
            } else {
                Err("missing --output value"@)
            }
        } else if a == "--ent"@ {
            if i + 1 < args.len() {
                read_args(args, i + 2, Some(args[(i + 1) as int]), output)
            } else {
                Err("missing --ent value"@)
            }
        } else if !starts_dash(a) {
            read_args(args, i + 1, Some(a), output)
        } else {
            Err("unknown arg: "@ + a)
        }
    }
}

/// The options of `extract`: the last free argument or value of `--ent` is
/// the input, the value after the last `-o`/`--output`/`--out` the output
/// directory.
pub open spec fn extract_options(args: Seq<Seq<char>>) -> Result<(Seq<char>, Option<Seq<char>>), Seq<char>> {
    match read_args(args, 0, None, None) {
        Err(m) => Err(m),
        Ok((Some(i), o)) => Ok((i, o)),
        Ok((None, _)) => Err("input.ent required"@),
    }
}

pub open spec fn arg_views(args: Seq<String>) -> Seq<Seq<char>> {
    args.map_values(|s: String| s@)
}

fn starts_with_dash(s: &str) -> (r: bool)
    ensures
        r == starts_dash(s@),
{
    char_len(s) > 0 && char_at(s, 0) == '-'
}

/// Reads the arguments of `extract`.
pub fn parse_extract_args(args: &Vec<String>) -> (r: Result<ExtractOptions, String>)
    ensures
        match extract_options(arg_views(args@)) {
            Ok((i, o)) => r matches Ok(x) && x.input@ == i && match x.output {
                Some(y) => o == Some(y@),
                None => o is None,
            },
            Err(m) => r matches Err(x) && x@ == m,
        },
{
    let ghost av = arg_views(args@);
    let mut input: Option<String> = None;
    let mut output: Option<String> = None;
    let mut i: usize = 0;
    while i < args.len()
        invariant
            i <= args@.len() + 1,
            av == arg_views(args@),
            read_args(av, 0, None, None) == read_args(
                av,
                i as nat,
                match input {
                    Some(s) => Some(s@),
                    None => None,
                },
                match output {
                    Some(s) => Some(s@),
                    None => None,
                },
            ),
        decreases args@.len() + 1 - i,
    {
        let a = args[i].as_str();
        proof {
            assert(av[i as int] == a@);
        }
        if str_is(a, "-o") || str_is(a, "--output") || str_is(a, "--out") {
            if i + 1 < args.len() {
                proof {
                    assert(av[i + 1] == args@[i + 1]@);
                }
                output = Some(owned(args[i + 1].as_str()));
                i = i + 2;
            } else {
                return Err(owned("missing --output value"));
            }
        } else if str_is(a, "--ent") {
            if i + 1 < args.len() {
                proof {
                    assert(av[i + 1] == args@[i + 1]@);
                }
                input = Some(owned(args[i + 1].as_str()));
                i = i + 2;
            } else {
                return Err(owned("missing --ent value"));
            }
        } else if !starts_with_dash(a) {
            input = Some(owned(a));
            i = i + 1;
        } else {
            let mut m = owned("unknown arg: ");
            push_str(&mut m, a);
            return Err(m);
        }
    }
    match input {
        Some(x) => Ok(ExtractOptions { input: x, output }),
        None => Err(owned("input.ent required")),
    }
}

/// The command that the arguments (program name first) ask for: `extract`
/// with its options, or help for `help`, `-h`, `--help` or no command.
pub open spec fn command_of(args: Seq<Seq<char>>) -> Result<Option<(Seq<char>, Option<Seq<char>>)>, Seq<char>> {
    let cmd = if args.len() > 1 { args[1] } else { "help"@ };
    if cmd == "extract"@ {
        match extract_options(args.skip(2)) {
            Ok(x) => Ok(Some(x)),
            Err(m) => Err(m),
        }
    } else if cmd == "help"@ || cmd == "-h"@ || cmd == "--help"@ {
        Ok(None)
    } else {
        Err("unknown command: "@ + cmd)
    }
}

/// Decides the command of a command line (program name first; at least the
/// program name and one more argument).
pub fn parse_command(args: &Vec<String>) -> (r: Result<Command, String>)
    requires
        args@.len() >= 2,
    ensures
        match command_of(arg_views(args@)) {
            Ok(Some((i, o))) => r matches Ok(Command::Extract(x)) && x.input@ == i && match x.output {
                Some(y) => o == Some(y@),
                None => o is None,
            },
            Ok(None) => r matches Ok(Command::Help),
            Err(m) => r matches Err(x) && x@ == m,
        },
{
    let ghost av = arg_views(args@);
    let cmd = args[1].as_str();
    proof {
        assert(av[1] == cmd@);
    }
    if str_is(cmd, "extract") {
        let mut rest: Vec<String> = Vec::new();
        let mut k: usize = 2;
        while k < args.len()
            invariant
                2 <= k <= args@.len(),
                av == arg_views(args@),
                arg_views(rest@) == av.subrange(2, k as int),
            decreases args@.len() - k,
        {
            let ghost before = arg_views(rest@);
            let c = owned(args[k].as_str());
            rest.push(c);
            proof {
                assert(arg_views(rest@) =~= before.push(c@));
                assert(av.subrange(2, k + 1) =~= av.subrange(2, k as int).push(av[k as int]));
            }
            k = k + 1;
        }
        proof {
            assert(av.subrange(2, k as int) =~= av.skip(2));
        }
        match parse_extract_args(&rest) {
            Ok(o) => Ok(Command::Extract(o)),
            Err(m) => Err(m),
        }
    } else if str_is(cmd, "help") || str_is(cmd, "-h") || str_is(cmd, "--help") {
        Ok(Command::Help)
    } else {
        let mut m = owned("unknown command: ");
        push_str(&mut m, cmd);
        Err(m)
    }
}

/// Options of `build --rs <file>... --out <file> [--scene <id>]`.
#[derive(Debug)]
pub struct BuildOptions {
    pub rs: Vec<String>,
    pub out: String,
    pub scene: Option<String>,
    /// A `.ent` project to start from.
    pub template: Option<String>,
}

/// The source files, output, scene and template read from the arguments
/// `i..`.
pub open spec fn read_build(args: Seq<Seq<char>>, i: nat, rs: Seq<Seq<char>>, out: Option<Seq<char>>, scene: Option<Seq<char>>, tmpl: Option<Seq<char>>) -> Result<(Seq<Seq<char>>, Option<Seq<char>>, Option<Seq<char>>, Option<Seq<char>>), Seq<char>>
    decreases args.len() - i,
{
    if i >= args.len() {
        Ok((rs, out, scene, tmpl))
    } else {
        let a = args[i as int];
        if a == "--rs"@ || a == "--out"@ || a == "--scene"@ || a == "--ent-template"@ {
            if i + 1 < args.len() {
                let v = args[(i + 1) as int];
                if a == "--rs"@ {
                    read_build(args, i + 2, rs.push(v), out, scene, tmpl)
                } else if a == "--out"@ {
                    read_build(args, i + 2, rs, Some(v), scene, tmpl)
                } else if a == "--scene"@ {
                    read_build(args, i + 2, rs, out, Some(v), tmpl)
                } else {
                    read_build(args, i + 2, rs, out, scene, Some(v))
                }
            } else {
                Err("missing value for "@ + a)
            }
        } else {
            Err("unknown arg: "@ + a)
        }
    }
}

/// The options of `build`: at least one `--rs` and an `--out`.
pub open spec fn build_options(args: Seq<Seq<char>>) -> Result<(Seq<Seq<char>>, Seq<char>, Option<Seq<char>>, Option<Seq<char>>), Seq<char>> {
    match read_build(args, 0, seq![], None, None, None) {
        Err(m) => Err(m),
        Ok((rs, out, scene, tmpl)) => if rs.len() == 0 {
            Err("at least one --rs required"@)
        } else {
            match out {
                Some(o) => Ok((rs, o, scene, tmpl)),
                None => Err("--out required"@),
            }
        },
    }
}

pub open spec fn opt_seq(o: Option<String>) -> Option<Seq<char>> {
    match o {
        Some(s) => Some(s@),
        None => None,
    }
}

/// Reads the arguments of `build`.
pub fn parse_build_args(args: &Vec<String>) -> (r: Result<BuildOptions, String>)
    ensures
        match build_options(arg_views(args@)) {
            Ok((rs, out, scene, tmpl)) => r matches Ok(x) && arg_views(x.rs@) == rs && x.out@ == out && opt_seq(x.scene)
                == scene && opt_seq(x.template) == tmpl,
            Err(m) => r matches Err(x) && x@ == m,
        },
{
    let ghost av = arg_views(args@);
    let mut rs: Vec<String> = Vec::new();
    let mut out: Option<String> = None;
    let mut scene: Option<String> = None;
    let mut template: Option<String> = None;
    let mut i: usize = 0;
    proof {
        assert(arg_views(rs@) =~= Seq::<Seq<char>>::empty());
    }
    while i < args.len()
        invariant
            i <= args@.len(),
            av == arg_views(args@),
            read_build(av, 0, seq![], None, None, None) == read_build(
                av,
                i as nat,
                arg_views(rs@),
                opt_seq(out),
                opt_seq(scene),
                opt_seq(template),
            ),
        decreases args@.len() - i,
    {
        let a = args[i].as_str();
        proof {
            assert(av[i as int] == a@);
        }
        let is_rs = str_is(a, "--rs");
        let is_out = str_is(a, "--out");
        let is_scene = str_is(a, "--scene");
        let is_template = str_is(a, "--ent-template");
        if is_rs || is_out || is_scene || is_template {
            if i + 1 < args.len() {
                let v = owned(args[i + 1].as_str());
                proof {
                    assert(av[i + 1] == v@);
                }
                if is_rs {
                    let ghost before = arg_views(rs@);
                    rs.push(v);
                    proof {
                        assert(arg_views(rs@) =~= before.push(av[i + 1]));
                    }
                } else if is_out {
                    out = Some(v);
                } else if is_scene {
                    scene = Some(v);
                } else {
                    template = Some(v);
                }
                i = i + 2;
            } else {
                let mut m = owned("missing value for ");
                push_str(&mut m, a);
                return Err(m);
            }
        } else {
            let mut m = owned("unknown arg: ");
            push_str(&mut m, a);
            return Err(m);
        }
    }
    if rs.len() == 0 {
        return Err(owned("at least one --rs required"));
    }
    match out {
        Some(o) => Ok(BuildOptions { rs, out: o, scene, template }),
        None => Err(owned("--out required")),
    }
}

} // verus!
